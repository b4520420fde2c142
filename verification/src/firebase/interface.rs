//! The publisher's vocabulary: the external invocations it asks for, what
//! comes back from them, and how captured output is judged.
use vstd::prelude::*;
use vstd::string::*;
use vstd::utf8::{decode_utf8, valid_utf8};
use vstd::std_specs::convert::FromSpecImpl;
use crate::bindings::string_from_utf8;
use crate::firebase::publisher::{Publisher, PublisherView};
use crate::mapping::{entries_map, keys_distinct, SecretMap};
use crate::secret::SecretEntry;
use crate::text::{contains_chars, has_substring, to_chars};

verus! {

/// One call of the external tool: the program, its arguments, and the text to
/// write to its input, if any.
#[derive(Debug)]
pub struct ProcessInvocation {
    pub program: String,
    pub args: Vec<String>,
    pub input: Option<String>,
}

/// What an invocation is, as plain text.
pub struct InvocationView {
    pub program: Seq<char>,
    pub args: Seq<Seq<char>>,
    pub input: Option<Seq<char>>,
}

impl View for ProcessInvocation {
    type V = InvocationView;

    open spec fn view(&self) -> InvocationView {
        InvocationView {
            program: self.program@,
            args: self.args@.map_values(|a: String| a@),
            input: match self.input {
                Some(text) => Some(text@),
                None => None,
            },
        }
    }
}

/// The invocation that switches the active project to `alias`.
pub open spec fn project_selection(alias: Seq<char>) -> InvocationView {
    InvocationView { program: "firebase"@, args: seq!["use"@, alias], input: None }
}

/// The invocation that sets the secret `key`; `value` goes to its input.
pub open spec fn secret_setting(key: Seq<char>, value: Seq<char>) -> InvocationView {
    InvocationView {
        program: "firebase"@,
        args: seq!["functions:secrets:set"@, key],
        input: Some(value),
    }
}

/// How an invocation ended.
#[derive(Debug)]
pub enum InvocationResult {
    /// The program could not be started.
    NotStarted(std::io::Error),
    /// The program was started, but writing its input or waiting for it failed.
    Interrupted(std::io::Error),
    /// The program ran; these bytes are its captured standard output.
    Output(Vec<u8>),
}

/// Why publishing failed.
#[derive(Debug)]
pub enum FirebaseInterfaceError {
    /// An invocation could not be run to its end.
    Io { msg: &'static str, source: std::io::Error },
    /// The tool reported a failure while setting one secret.
    SecretSetError { key: String, value: String, message: String },
    /// The tool reported a failure while selecting the project.
    FirebaseError(String),
    /// The captured output is not text.
    StringParse(std::string::FromUtf8Error),
    /// A unit of work did not run to its end.
    RuntimeError(tokio::task::JoinError),
    /// The progress indicator could not be set up.
    IndicatifError(indicatif::style::TemplateError),
}

impl From<std::string::FromUtf8Error> for FirebaseInterfaceError {
    fn from(value: std::string::FromUtf8Error) -> (r: Self) {
        Self::StringParse(value)
    }
}

impl FromSpecImpl<std::string::FromUtf8Error> for FirebaseInterfaceError {
    open spec fn obeys_from_spec() -> bool {
        true
    }

    open spec fn from_spec(value: std::string::FromUtf8Error) -> Self {
        Self::StringParse(value)
    }
}

impl From<tokio::task::JoinError> for FirebaseInterfaceError {
    fn from(value: tokio::task::JoinError) -> (r: Self) {
        Self::RuntimeError(value)
    }
}

impl FromSpecImpl<tokio::task::JoinError> for FirebaseInterfaceError {
    open spec fn obeys_from_spec() -> bool {
        true
    }

    open spec fn from_spec(value: tokio::task::JoinError) -> Self {
        Self::RuntimeError(value)
    }
}

impl From<indicatif::style::TemplateError> for FirebaseInterfaceError {
    fn from(value: indicatif::style::TemplateError) -> (r: Self) {
        Self::IndicatifError(value)
    }
}

impl FromSpecImpl<indicatif::style::TemplateError> for FirebaseInterfaceError {
    open spec fn obeys_from_spec() -> bool {
        true
    }

    open spec fn from_spec(value: indicatif::style::TemplateError) -> Self {
        Self::IndicatifError(value)
    }
}

impl FirebaseInterfaceError {
    /// An invocation that could not be run, with a hint for the user.
    pub fn io_error(msg: &'static str, source: std::io::Error) -> (e: Self)
        ensures
            e == (Self::Io { msg, source }),
    {
        Self::Io { msg, source }
    }

    /// A failure that the tool reported while selecting the project.
    pub fn firebase_error(msg: String) -> (e: Self)
        ensures
            e == Self::FirebaseError(msg),
    {
        Self::FirebaseError(msg)
    }

    /// A failure that the tool reported while setting the secret `key`.
    pub fn secret_set_error(key: String, value: String, message: String) -> (e: Self)
        ensures
            e == (Self::SecretSetError { key, value, message }),
    {
        Self::SecretSetError { key, value, message }
    }

    /// Whether the message ends with a description of an underlying cause,
    /// which is worded outside this library.
    pub open spec fn has_cause(&self) -> bool {
        match self {
            Self::Io { .. } => true,
            Self::SecretSetError { .. } => false,
            Self::FirebaseError(_) => false,
            Self::StringParse(_) => true,
            Self::RuntimeError(_) => true,
            Self::IndicatifError(_) => true,
        }
    }

    /// The part of the message that this library words.
    pub open spec fn headline(&self) -> Seq<char> {
        match self {
            Self::Io { msg, .. } => msg@ + ", source: "@,
            Self::SecretSetError { key, value, message } => "couldn't set "@ + key@ + " = "@
                + value@ + ", "@ + message@,
            Self::FirebaseError(output) => output@,
            Self::StringParse(_) => "error parsing firebase output: "@,
            Self::RuntimeError(_) => "tokio runtime error: "@,
            Self::IndicatifError(_) => "indicatif error: "@,
        }
    }

    /// Renders the error for a user: the headline, followed by the
    /// description of the underlying cause where there is one.
    pub fn message(&self) -> (r: String)
        ensures
            self.headline().is_prefix_of(r@),
            !self.has_cause() ==> r@ == self.headline(),
    {
        match self {
            Self::Io { msg, source } => {
                let mut r = (*msg).to_owned();
                r.append(", source: ");
                r.append(source.to_string().as_str());
                r
            },
            Self::SecretSetError { key, value, message } => {
                let mut r = "couldn't set ".to_owned();
                r.append(key.as_str());
                r.append(" = ");
                r.append(value.as_str());
                r.append(", ");
                r.append(message.as_str());
                r
            },
            Self::FirebaseError(output) => output.clone(),
            Self::StringParse(cause) => {
                let mut r = "error parsing firebase output: ".to_owned();
                r.append(cause.to_string().as_str());
                r
            },
            Self::RuntimeError(cause) => {
                let mut r = "tokio runtime error: ".to_owned();
                r.append(cause.to_string().as_str());
                r
            },
            Self::IndicatifError(cause) => {
                let mut r = "indicatif error: ".to_owned();
                r.append(cause.to_string().as_str());
                r
            },
        }
    }
}

/// The text whose presence in captured output marks a failure of the tool.
pub open spec fn failure_marker() -> Seq<char> {
    seq!['E', 'r', 'r', 'o', 'r']
}

/// Whether captured output is evidence of a failure: it holds the marker.
pub open spec fn reports_failure(output: Seq<char>) -> bool {
    has_substring(output, failure_marker())
}

/// The hint given when the tool cannot be started.
pub open spec fn not_started_hint() -> Seq<char> {
    "could not run firebase command, check if firebase-tools are installed in your machine"@
}

/// The hint given when an invocation breaks off after it was started.
pub open spec fn interrupted_hint() -> Seq<char> {
    "debug"@
}

/// Whether `run` is an invocation that ran and whose output is text without
/// the failure marker.
pub open spec fn run_succeeded(run: InvocationResult) -> bool {
    run matches InvocationResult::Output(bytes) && valid_utf8(bytes@) && !reports_failure(
        decode_utf8(bytes@),
    )
}

/// Whether `e` is the error that `run` gives before its output is judged: the
/// invocation did not run to its end, or its output is not text.
pub open spec fn is_run_error(run: InvocationResult, e: FirebaseInterfaceError) -> bool {
    match run {
        InvocationResult::NotStarted(cause) => e matches FirebaseInterfaceError::Io { msg, source }
            && msg@ == not_started_hint() && source == cause,
        InvocationResult::Interrupted(cause) => e matches FirebaseInterfaceError::Io { msg, source }
            && msg@ == interrupted_hint() && source == cause,
        InvocationResult::Output(bytes) => !valid_utf8(bytes@)
            && e is StringParse,
    }
}

/// Whether `e` is the error that a failed project selection `run` gives.
pub open spec fn is_project_error(run: InvocationResult, e: FirebaseInterfaceError) -> bool {
    match run {
        InvocationResult::Output(bytes) if valid_utf8(bytes@) => reports_failure(
            decode_utf8(bytes@),
        ) && match e {
            FirebaseInterfaceError::FirebaseError(output) => output@ == decode_utf8(bytes@),
            _ => false,
        },
        _ => is_run_error(run, e),
    }
}

/// Whether `e` is the error that a failed `run` to set `key` to `value` gives.
pub open spec fn is_secret_error(
    key: Seq<char>,
    value: Seq<char>,
    run: InvocationResult,
    e: FirebaseInterfaceError,
) -> bool {
    match run {
        InvocationResult::Output(bytes) if valid_utf8(bytes@) => reports_failure(
            decode_utf8(bytes@),
        ) && match e {
            FirebaseInterfaceError::SecretSetError { key: k, value: v, message } => k@ == key
                && v@ == value && message@ == decode_utf8(bytes@),
            _ => false,
        },
        _ => is_run_error(run, e),
    }
}

/// Judges captured output: whether it holds the failure marker.
pub fn is_failure_output(output: &str) -> (b: bool)
    ensures
        b == reports_failure(output@),
{
    let text = to_chars(output);
    let marker: [char; 5] = ['E', 'r', 'r', 'o', 'r'];
    contains_chars(text.as_slice(), marker.as_slice())
}

/// The text that an invocation captured, or the error that kept it from
/// giving any.
pub fn read_output(run: InvocationResult) -> (r: Result<String, FirebaseInterfaceError>)
    ensures
        match r {
            Ok(output) => run matches InvocationResult::Output(bytes) && valid_utf8(bytes@)
                && output@ == decode_utf8(bytes@),
            Err(e) => is_run_error(run, e),
        },
{
    match run {
        InvocationResult::NotStarted(cause) => Err(
            FirebaseInterfaceError::io_error(
                "could not run firebase command, check if firebase-tools are installed in your machine",
                cause,
            ),
        ),
        InvocationResult::Interrupted(cause) => Err(
            FirebaseInterfaceError::io_error("debug", cause),
        ),
        InvocationResult::Output(bytes) => match string_from_utf8(bytes) {
            Ok(output) => Ok(output),
            Err(cause) => Err(FirebaseInterfaceError::from(cause)),
        },
    }
}

/// What a finished collection holds.
pub struct InterfaceView {
    pub secrets: Map<Seq<char>, Seq<char>>,
    pub alias: Seq<char>,
}

/// A finished collection: the secrets to publish and the alias of the project
/// to publish them to.
#[derive(Debug)]
pub struct FirebaseInterface {
    secrets: SecretMap,
    alias: String,
}

impl View for FirebaseInterface {
    type V = InterfaceView;

    closed spec fn view(&self) -> InterfaceView {
        InterfaceView { secrets: self.secrets@, alias: self.alias@ }
    }
}

impl FirebaseInterface {
    /// A collection of `secrets` for the project `alias`.
    pub fn new(secrets: SecretMap, alias: String) -> (f: Self)
        ensures
            f@.secrets == secrets@,
            f@.alias == alias@,
    {
        Self { secrets, alias }
    }

    /// The secrets to publish.
    pub fn secrets(&self) -> (m: &SecretMap)
        ensures
            m@ == self@.secrets,
    {
        &self.secrets
    }

    /// The alias of the project to publish to.
    pub fn alias(&self) -> (a: &String)
        ensures
            a@ == self@.alias,
    {
        &self.alias
    }

    /// The invocation that selects the project.
    pub fn project_invocation(&self) -> (inv: ProcessInvocation)
        ensures
            inv@ == project_selection(self@.alias),
    {
        let mut args: Vec<String> = Vec::new();
        args.push("use".to_owned());
        args.push(self.alias.clone());
        let inv = ProcessInvocation { program: "firebase".to_owned(), args, input: None };
        assert(inv@.args == project_selection(self@.alias).args);
        inv
    }

    /// The invocation that sets the secret `key` to `value`.
    pub fn secret_invocation(key: &str, value: &str) -> (inv: ProcessInvocation)
        ensures
            inv@ == secret_setting(key@, value@),
    {
        let mut args: Vec<String> = Vec::new();
        args.push("functions:secrets:set".to_owned());
        args.push(key.to_owned());
        let inv = ProcessInvocation {
            program: "firebase".to_owned(),
            args,
            input: Some(value.to_owned()),
        };
        assert(inv@.args == secret_setting(key@, value@).args);
        inv
    }

    /// Judges how the project selection ended: it succeeded if the invocation
    /// ran and its output is text without the failure marker.
    pub fn set_project(&self, run: InvocationResult) -> (r: Result<(), FirebaseInterfaceError>)
        ensures
            r is Ok <==> run_succeeded(run),
            r matches Err(e) ==> is_project_error(run, e),
    {
        let output = match read_output(run) {
            Ok(output) => output,
            Err(e) => {
                return Err(e);
            },
        };
        if is_failure_output(output.as_str()) {
            Err(FirebaseInterfaceError::firebase_error(output))
        } else {
            Ok(())
        }
    }

    /// Judges how setting the secret `key` to `value` ended: it succeeded if
    /// the invocation ran and its output is text without the failure marker.
    pub fn set_secret(key: &str, value: &str, run: InvocationResult) -> (r: Result<
        (),
        FirebaseInterfaceError,
    >)
        ensures
            r is Ok <==> run_succeeded(run),
            r matches Err(e) ==> is_secret_error(key@, value@, run, e),
    {
        let output = match read_output(run) {
            Ok(output) => output,
            Err(e) => {
                return Err(e);
            },
        };
        if is_failure_output(output.as_str()) {
            Err(FirebaseInterfaceError::secret_set_error(key.to_owned(), value.to_owned(), output))
        } else {
            Ok(())
        }
    }

    /// Gives up the collection as units of work, one for each key.
    pub fn into_units(self) -> (units: Vec<SecretEntry>)
        ensures
            keys_distinct(units@),
            entries_map(units@) == self@.secrets,
            units@.len() == self@.secrets.len(),
    {
        self.secrets.into_entries()
    }

    /// Begins publishing: hands the collection over to a publisher that has
    /// not started yet.
    pub fn set_secrets(self) -> (p: Publisher)
        ensures
            p@ == PublisherView::Idle(self@),
    {
        Publisher::new(self)
    }
}

} // verus!
