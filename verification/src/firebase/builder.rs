//! The collector: accumulates secrets from single definitions and from whole
//! sources, together with the alias of the project they are published to.
use vstd::prelude::*;
use vstd::slice::*;
use vstd::string::*;
use vstd::utf8::{decode_utf8, valid_utf8};
use crate::bindings::{io_error_from, string_from_utf8};
use crate::firebase::interface::FirebaseInterface;
use crate::mapping::SecretMap;
use crate::secret::{
    is_skipped,
    is_skipped_line,
    lemma_defines_secret,
    lemma_split_at_first_equals,
    parse_secret,
    secret_of,
    value_of,
};
use crate::text::to_chars;

verus! {

/// Why collecting secrets failed.
#[derive(Debug)]
pub enum BuilderError {
    /// The source could not be read as text.
    Io(std::io::Error),
    /// A definition holds no `=`, or no key before it; the definition is
    /// carried verbatim.
    InvalidSecretFormat(String),
    /// The collection was finished without a project alias.
    ProjectAliasNotSetError,
}

impl BuilderError {
    /// The message that describes the error to a user.
    pub open spec fn text(&self) -> Seq<char> {
        match self {
            BuilderError::Io(_) => "error reading from source file"@,
            BuilderError::InvalidSecretFormat(secret) => "secret `"@ + secret@
                + "` is in an invalid format"@,
            BuilderError::ProjectAliasNotSetError => "error project alias not set"@,
        }
    }

    /// Renders the error for a user.
    pub fn message(&self) -> (r: String)
        ensures
            r@ == self.text(),
    {
        match self {
            BuilderError::Io(_) => "error reading from source file".to_owned(),
            BuilderError::InvalidSecretFormat(secret) => {
                let mut r = "secret `".to_owned();
                r.append(secret.as_str());
                r.append("` is in an invalid format");
                r
            },
            BuilderError::ProjectAliasNotSetError => "error project alias not set".to_owned(),
        }
    }
}

/// The position at which the first line of `bytes` ends: that of its first
/// line feed, or its length if it holds none.
pub open spec fn line_end(bytes: Seq<u8>) -> int {
    match bytes.index_of_first(0x0Au8) {
        Some(i) => i,
        None => bytes.len() as int,
    }
}

/// `s` without one carriage return at its end, if it has one.
pub open spec fn without_carriage_return(s: Seq<char>) -> Seq<char> {
    if s.len() > 0 && s.last() == '\r' {
        s.drop_last()
    } else {
        s
    }
}

/// The lines of a source. A line ends at a line feed or at the end of the
/// source; the line feed, and a carriage return just before it, are not part
/// of the line. A line whose bytes are not UTF-8 is `None`.
pub open spec fn source_lines(bytes: Seq<u8>) -> Seq<Option<Seq<char>>>
    decreases bytes.len(),
{
    if bytes.len() == 0 {
        Seq::empty()
    } else {
        let end = line_end(bytes);
        if 0 <= end < bytes.len() {
            let raw = bytes.take(end);
            let line = if valid_utf8(raw) {
                Some(without_carriage_return(decode_utf8(raw)))
            } else {
                None
            };
            seq![line] + source_lines(bytes.skip(end + 1))
        } else {
            seq![
                if valid_utf8(bytes) {
                    Some(decode_utf8(bytes))
                } else {
                    None
                },
            ]
        }
    }
}

/// Why reading a source stopped early.
pub enum SourceFault {
    /// A line is not UTF-8.
    NotText,
    /// A line that is neither skipped nor a definition.
    Malformed(Seq<char>),
}

/// What reading a source leaves behind: the mapping as far as it was filled,
/// and the fault that stopped the reading, if one did.
pub struct Ingested {
    pub secrets: Map<Seq<char>, Seq<char>>,
    pub fault: Option<SourceFault>,
}

/// Reading `lines` into `secrets`, from the first line on. Skipped lines add
/// nothing; each definition is stored, in place of an earlier one under the
/// same key; the first line that cannot be read or parsed stops the reading
/// and leaves in place what the lines before it stored.
pub open spec fn ingest(secrets: Map<Seq<char>, Seq<char>>, lines: Seq<Option<Seq<char>>>) -> Ingested
    decreases lines.len(),
{
    if lines.len() == 0 {
        Ingested { secrets, fault: None }
    } else {
        match lines.first() {
            None => Ingested { secrets, fault: Some(SourceFault::NotText) },
            Some(line) => if is_skipped(line) {
                ingest(secrets, lines.drop_first())
            } else {
                match secret_of(line) {
                    Some((key, value)) => ingest(secrets.insert(key, value), lines.drop_first()),
                    None => Ingested { secrets, fault: Some(SourceFault::Malformed(line)) },
                }
            },
        }
    }
}

/// What a collector holds.
pub struct BuilderView {
    pub secrets: Map<Seq<char>, Seq<char>>,
    pub alias: Option<Seq<char>>,
}

/// Collects secrets and a project alias. No secret is ever held under an
/// empty key.
#[derive(Debug)]
pub struct FirebaseInterfaceBuilder {
    secrets: SecretMap,
    alias: Option<String>,
}

impl View for FirebaseInterfaceBuilder {
    type V = BuilderView;

    closed spec fn view(&self) -> BuilderView {
        BuilderView {
            secrets: self.secrets@,
            alias: match self.alias {
                Some(alias) => Some(alias@),
                None => None,
            },
        }
    }
}

fn find_line_end(bytes: &[u8]) -> (r: usize)
    ensures
        r == line_end(bytes@),
        r <= bytes@.len(),
{
    let mut i: usize = 0;
    while i < bytes.len()
        invariant
            i <= bytes@.len(),
            forall|j: int| 0 <= j < i ==> bytes@[j] != 0x0Au8,
        decreases bytes@.len() - i,
    {
        if bytes[i] == 0x0Au8 {
            proof {
                bytes@.index_of_first_ensures(0x0Au8);
            }
            return i;
        }
        i += 1;
    }
    proof {
        bytes@.index_of_first_ensures(0x0Au8);
    }
    i
}

fn strip_carriage_return(line: String) -> (r: String)
    ensures
        r@ == without_carriage_return(line@),
{
    let chars = to_chars(line.as_str());
    let n = chars.len();
    if n > 0 && chars[n - 1] == '\r' {
        line.as_str().substring_char(0, n - 1).to_owned()
    } else {
        line
    }
}

impl FirebaseInterfaceBuilder {
    #[verifier::type_invariant]
    spec fn keys_not_empty(&self) -> bool {
        !self.secrets@.contains_key(Seq::<char>::empty())
    }

    /// A collector that holds no secret and no alias.
    pub fn builder() -> (b: Self)
        ensures
            b@.secrets == Map::<Seq<char>, Seq<char>>::empty(),
            b@.alias is None,
    {
        Self { secrets: SecretMap::new(), alias: None }
    }

    /// The secrets collected so far. None of them has an empty key.
    pub fn secrets(&self) -> (m: &SecretMap)
        ensures
            m@ == self@.secrets,
            !m@.contains_key(Seq::<char>::empty()),
    {
        proof {
            use_type_invariant(self);
        }
        &self.secrets
    }

    /// The alias, if one was set.
    pub fn alias(&self) -> (a: Option<&String>)
        ensures
            match a {
                Some(alias) => self@.alias == Some(alias@),
                None => self@.alias is None,
            },
    {
        self.alias.as_ref()
    }

    /// Sets the alias of the project to publish to, in place of an earlier one.
    pub fn set_alias(&mut self, alias: String)
        ensures
            final(self)@.alias == Some(alias@),
            final(self)@.secrets == old(self)@.secrets,
    {
        proof {
            use_type_invariant(&*self);
        }
        self.alias = Some(alias);
    }

    /// Reads one definition `KEY=VALUE` and stores it, in place of an earlier
    /// secret under the same key. A definition without `=`, or without a key
    /// before it, is refused and handed back in the error, and nothing is
    /// stored.
    pub fn add_secret(&mut self, secret: String) -> (r: Result<(), BuilderError>)
        ensures
            final(self)@.alias == old(self)@.alias,
            r is Ok <==> secret@.contains('=') && secret@.first() != '=',
            r is Ok ==> (secret_of(secret@) matches Some((key, value)) && final(self)@.secrets
                == old(self)@.secrets.insert(key, value)),
            r is Err ==> (r matches Err(BuilderError::InvalidSecretFormat(line)) && line@
                == secret@) && final(self)@.secrets == old(self)@.secrets,
    {
        proof {
            use_type_invariant(&*self);
            lemma_defines_secret(secret@);
        }
        match parse_secret(secret.as_str()) {
            Some(entry) => {
                let mut secrets = SecretMap::new();
                std::mem::swap(&mut self.secrets, &mut secrets);
                secrets.insert(entry.key, entry.value);
                std::mem::swap(&mut self.secrets, &mut secrets);
                Ok(())
            },
            None => Err(BuilderError::InvalidSecretFormat(secret)),
        }
    }

    /// Reads a whole source, line by line. Empty lines and comment lines are
    /// passed over; every other line is read as a definition. The first line
    /// that is not text or not a definition ends the reading with an error,
    /// and what the lines before it stored stays stored.
    pub fn from_source(&mut self, source: &[u8]) -> (r: Result<(), BuilderError>)
        ensures
            final(self)@.alias == old(self)@.alias,
            final(self)@.secrets == ingest(old(self)@.secrets, source_lines(source@)).secrets,
            match ingest(old(self)@.secrets, source_lines(source@)).fault {
                None => r is Ok,
                Some(SourceFault::NotText) => r matches Err(BuilderError::Io(_)),
                Some(SourceFault::Malformed(line)) => r matches Err(
                    BuilderError::InvalidSecretFormat(echo),
                ) && echo@ == line,
            },
    {
        let n = source.len();
        let mut pos: usize = 0;
        assert(source@.skip(0) == source@);
        while pos < n
            invariant
                pos <= n == source@.len(),
                self@.alias == old(self)@.alias,
                ingest(old(self)@.secrets, source_lines(source@)) == ingest(
                    self@.secrets,
                    source_lines(source@.skip(pos as int)),
                ),
            decreases n - pos,
        {
            let rest = slice_subrange(source, pos, n);
            let end = find_line_end(rest);
            let terminated = end < rest.len();
            let raw = slice_to_vec(slice_subrange(rest, 0, end));
            proof {
                if terminated {
                    assert(rest@.skip(end + 1) == source@.skip(pos + end + 1));
                } else {
                    assert(raw@ == rest@);
                }
                assert(source_lines(rest@).drop_first() == source_lines(
                    source@.skip(if terminated { pos + end + 1 } else { n as int }),
                ));
            }
            let decoded = match string_from_utf8(raw) {
                Ok(text) => text,
                Err(cause) => {
                    return Err(BuilderError::Io(io_error_from(cause)));
                },
            };
            let line = if terminated {
                strip_carriage_return(decoded)
            } else {
                decoded
            };
            if !is_skipped_line(line.as_str()) {
                proof {
                    lemma_defines_secret(line@);
                }
                match self.add_secret(line) {
                    Ok(()) => {},
                    Err(e) => {
                        return Err(e);
                    },
                }
            }
            pos = if terminated { pos + end + 1 } else { n };
        }
        Ok(())
    }

    /// Finishes the collection. This succeeds exactly if an alias was set
    /// that is not empty, and then hands over the secrets and the alias as
    /// they are. What is handed over has no empty key.
    pub fn build(self) -> (r: Result<FirebaseInterface, BuilderError>)
        ensures
            match self@.alias {
                Some(alias) if alias.len() > 0 => r matches Ok(interface) && interface@.alias
                    == alias && interface@.secrets == self@.secrets,
                _ => r matches Err(BuilderError::ProjectAliasNotSetError),
            },
            r matches Ok(interface) ==> interface@.alias.len() > 0
                && !interface@.secrets.contains_key(Seq::<char>::empty()),
    {
        proof {
            use_type_invariant(&self);
        }
        match self.alias {
            Some(alias) => {
                if alias.as_str().is_empty() {
                    Err(BuilderError::ProjectAliasNotSetError)
                } else {
                    Ok(FirebaseInterface::new(self.secrets, alias))
                }
            },
            None => Err(BuilderError::ProjectAliasNotSetError),
        }
    }
}

/// Lines that are passed over add nothing: a source made of empty lines and
/// comment lines alone is read without a fault and leaves the mapping as it
/// was.
pub proof fn lemma_skipped_lines_add_nothing(
    secrets: Map<Seq<char>, Seq<char>>,
    lines: Seq<Option<Seq<char>>>,
)
    requires
        forall|i: int|
            0 <= i < lines.len() ==> (#[trigger] lines[i] matches Some(line) && is_skipped(line)),
    ensures
        ingest(secrets, lines) == (Ingested { secrets, fault: None }),
    decreases lines.len(),
{
    if lines.len() > 0 {
        assert forall|i: int| 0 <= i < lines.drop_first().len() implies (
        #[trigger] lines.drop_first()[i] matches Some(line) && is_skipped(line)) by {
            assert(lines.drop_first()[i] == lines[i + 1]);
        }
        lemma_skipped_lines_add_nothing(secrets, lines.drop_first());
    }
}

/// A line that is passed over changes nothing for the lines after it.
pub proof fn lemma_skipped_line(
    secrets: Map<Seq<char>, Seq<char>>,
    line: Seq<char>,
    rest: Seq<Option<Seq<char>>>,
)
    requires
        is_skipped(line),
    ensures
        ingest(secrets, seq![Some(line)] + rest) == ingest(secrets, rest),
{
    assert((seq![Some(line)] + rest).drop_first() == rest);
}

/// A line that is not passed over and holds no `=`, or begins with it, stops
/// the reading: the fault echoes the line verbatim, the mapping stays as the
/// lines before left it, and the lines after it are not read.
pub proof fn lemma_malformed_line_stops(
    secrets: Map<Seq<char>, Seq<char>>,
    line: Seq<char>,
    rest: Seq<Option<Seq<char>>>,
)
    requires
        !is_skipped(line),
        !line.contains('=') || line.first() == '=',
    ensures
        ingest(secrets, seq![Some(line)] + rest) == (Ingested {
            secrets,
            fault: Some(SourceFault::Malformed(line)),
        }),
{
    lemma_defines_secret(line);
}

/// A definition that is not passed over is stored, in place of what its key
/// held before, and the reading goes on.
pub proof fn lemma_definition_stored(
    secrets: Map<Seq<char>, Seq<char>>,
    key: Seq<char>,
    text: Seq<char>,
    rest: Seq<Option<Seq<char>>>,
)
    requires
        key.len() > 0,
        !key.contains('='),
        !is_skipped(key + seq!['='] + text),
    ensures
        ingest(secrets, seq![Some(key + seq!['='] + text)] + rest) == ingest(
            secrets.insert(key, value_of(text)),
            rest,
        ),
{
    lemma_split_at_first_equals(key, text);
    assert((seq![Some(key + seq!['='] + text)] + rest).drop_first() == rest);
}

/// The last write wins: of two definitions of one key in one source, the
/// mapping holds the value of the later one.
pub proof fn lemma_last_write_wins(
    secrets: Map<Seq<char>, Seq<char>>,
    key: Seq<char>,
    first: Seq<char>,
    second: Seq<char>,
)
    requires
        key.len() > 0,
        !key.contains('='),
        !is_skipped(key + seq!['='] + first),
        !is_skipped(key + seq!['='] + second),
    ensures
        ingest(
            secrets,
            seq![Some(key + seq!['='] + first), Some(key + seq!['='] + second)],
        ).fault is None,
        ingest(
            secrets,
            seq![Some(key + seq!['='] + first), Some(key + seq!['='] + second)],
        ).secrets == secrets.insert(key, value_of(second)),
{
    let one = key + seq!['='] + first;
    let two = key + seq!['='] + second;
    assert(seq![Some(one), Some(two)] == seq![Some(one)] + seq![Some(two)]);
    lemma_definition_stored(secrets, key, first, seq![Some(two)]);
    lemma_definition_stored(
        secrets.insert(key, value_of(first)),
        key,
        second,
        Seq::<Option<Seq<char>>>::empty(),
    );
    assert(secrets.insert(key, value_of(first)).insert(key, value_of(second)) == secrets.insert(
        key,
        value_of(second),
    ));
}

} // verus!
