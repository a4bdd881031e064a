//! What the client accepts in its login and registration forms.  The
//! alphanumeric, UUID and URL checks are made by outside parsers whose
//! verdicts depend on the text alone; the length rules are this
//! crate's own.

use vstd::prelude::*;
use vstd::string::StringSliceAdditionalSpecFns;

verus! {

/// Whether every character of the text counts as alphanumeric, as the
/// shared validation library decides it.
pub uninterp spec fn alphanumeric_ok(s: Seq<char>) -> bool;

/// Whether the text is a well-formed UUID, as the shared validation
/// library decides it.
pub uninterp spec fn uuid_ok(s: Seq<char>) -> bool;

/// Whether the text parses as a URL, as the URL parser decides it.
pub uninterp spec fn url_accepted(s: Seq<char>) -> bool;

/// Relies on giga_chess_api_types::validation::alphanumeric::is_alphanumeric,
/// which accepts exactly the texts whose every character is
/// alphanumeric: the verdict depends on the characters alone, and an
/// empty text passes.
#[verifier::external_body]
fn alphanumeric_check(value: &str) -> (r: bool)
    ensures
        r == alphanumeric_ok(value@),
        value@.len() == 0 ==> r,
{
    giga_chess_api_types::validation::alphanumeric::is_alphanumeric(value).is_ok()
}

/// Relies on giga_chess_api_types::validation::uuid::is_uuid, which
/// accepts exactly the texts uuid::Uuid::parse_str parses: the verdict
/// depends on the characters alone.
#[verifier::external_body]
fn uuid_check(value: &str) -> (r: bool)
    ensures
        r == uuid_ok(value@),
{
    giga_chess_api_types::validation::uuid::is_uuid(value).is_ok()
}

/// Relies on url::Url::parse: whether a text parses as a URL depends
/// on the text alone.
#[verifier::external_body]
fn url_check(value: &str) -> (r: bool)
    ensures
        r == url_accepted(value@),
{
    url::Url::parse(value).is_ok()
}

/// A username is accepted when it is alphanumeric and its length in
/// bytes lies between 3 and 16.
pub fn validate_username(username: &str) -> (r: bool)
    ensures
        r == (alphanumeric_ok(username@) && 3 <= username.spec_bytes().len() <= 16),
{
    let n = username.as_bytes().len();
    alphanumeric_check(username) && n >= 3 && n <= 16
}

/// A password is accepted when its length in bytes lies between 8 and
/// 100.
pub fn validate_password(password: &str) -> (r: bool)
    ensures
        r == (8 <= password.spec_bytes().len() <= 100),
{
    let n = password.as_bytes().len();
    n >= 8 && n <= 100
}

/// An invite code is accepted when it is a well-formed UUID.
pub fn validate_invite_code(invite_code: &str) -> (r: bool)
    ensures
        r == uuid_ok(invite_code@),
{
    uuid_check(invite_code)
}

/// A server address is accepted when it parses as a URL.
pub fn validate_url(url: &str) -> (r: bool)
    ensures
        r == url_accepted(url@),
{
    url_check(url)
}

} // verus!
