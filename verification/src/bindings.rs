//! The outside types and functions that the library relies on. Their
//! contracts are taken on trust from their documentation and source.
use vstd::prelude::*;
use vstd::utf8::{decode_utf8, valid_utf8};

verus! {

/// `std::io::Error`, opaque to the verifier.
#[verifier::external_type_specification]
#[verifier::external_body]
pub struct ExIoError(std::io::Error);

/// `std::string::FromUtf8Error`, opaque to the verifier.
#[verifier::external_type_specification]
#[verifier::external_body]
pub struct ExFromUtf8Error(std::string::FromUtf8Error);

/// `tokio::task::JoinError`, opaque to the verifier.
#[verifier::external_type_specification]
#[verifier::external_body]
pub struct ExJoinError(tokio::task::JoinError);

/// `indicatif::style::TemplateError`, opaque to the verifier.
#[verifier::external_type_specification]
#[verifier::external_body]
pub struct ExTemplateError(indicatif::style::TemplateError);

/// `indicatif::ProgressStyle`, opaque to the verifier.
#[verifier::external_type_specification]
#[verifier::external_body]
pub struct ExProgressStyle(indicatif::ProgressStyle);

/// `String::from_utf8`: succeeds exactly on well-formed UTF-8, and then
/// returns the text that the bytes encode.
#[verifier::external_body]
pub(crate) fn string_from_utf8(bytes: Vec<u8>) -> (r: Result<String, std::string::FromUtf8Error>)
    ensures
        r is Ok <==> valid_utf8(bytes@),
        r matches Ok(s) ==> s@ == decode_utf8(bytes@),
{
    String::from_utf8(bytes)
}

/// `std::io::Error::other`: carries a decoding failure as an I/O error.
/// Nothing is claimed of the error that comes back.
#[verifier::external_body]
pub(crate) fn io_error_from(cause: std::string::FromUtf8Error) -> std::io::Error {
    std::io::Error::other(cause)
}

/// Whether `indicatif` accepts `template` as the template of a progress
/// style.
pub uninterp spec fn template_accepted(template: Seq<char>) -> bool;

/// `indicatif::ProgressStyle::with_template`: parses `template` into a
/// progress style, or refuses it. Whether it is refused depends on the
/// template alone. A template with a digit is left out: a field width that is
/// too large makes the parser panic.
#[verifier::external_body]
pub(crate) fn style_with_template(template: &str) -> (r: Result<
    indicatif::ProgressStyle,
    indicatif::style::TemplateError,
>)
    requires
        forall|i: int| 0 <= i < template@.len() ==> !('0' <= #[trigger] template@[i] <= '9'),
    ensures
        r is Ok <==> template_accepted(template@),
{
    indicatif::ProgressStyle::with_template(template)
}

} // verus!
