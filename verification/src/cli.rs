//! The options of the command line, as plain data.
use vstd::prelude::*;

verus! {

/// The command line.
pub struct Cli {
    pub commands: Commands,
}

/// The commands.
pub enum Commands {
    /// Set secrets from a file or from one `KEY=VALUE` pair.
    SetSecrets(SetOptions),
}

/// The options of the `set` command.
#[derive(Debug)]
pub struct SetOptions {
    /// One definition, `KEY=VALUE`.
    pub secret: Option<String>,
    /// The path of a file of definitions.
    pub path: Option<String>,
    /// The alias of the project to publish to.
    pub alias: String,
}

impl SetOptions {
    /// Whether the options name a source of secrets. Without one there is
    /// nothing to publish.
    pub fn has_source(&self) -> (b: bool)
        ensures
            b == (self.secret is Some || self.path is Some),
    {
        self.secret.is_some() || self.path.is_some()
    }
}

} // verus!
