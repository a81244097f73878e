//! What the `url` crate makes of URL strings, as far as the library reads it.
use vstd::prelude::*;

verus! {

/// The scheme, host and port (`port_or_known_default`) of a parsed URL, or
/// nothing when `url::Url::parse` refuses the string.
pub uninterp spec fn url_parts(u: Seq<char>) -> Option<(Seq<char>, Option<Seq<char>>, Option<u16>)>;

/// Calls `url::Url::parse` and reads `scheme()`, `host_str()` and
/// `port_or_known_default()` of the result. The parse is a function of the
/// string alone; the contract names its result.
#[verifier::external_body]
pub(crate) fn parse_url_parts(u: &str) -> (r: Option<(String, Option<String>, Option<u16>)>)
    ensures
        match (r, url_parts(u@)) {
            (Some((s, h, p)), Some((s2, h2, p2))) => s@ == s2 && p == p2 && match (h, h2) {
                (Some(a), Some(b)) => a@ == b,
                (None, None) => true,
                _ => false,
            },
            (None, None) => true,
            _ => false,
        },
{
    match url::Url::parse(u) {
        Ok(p) => Some((p.scheme().to_owned(), p.host_str().map(|h| h.to_owned()), p.port_or_known_default())),
        Err(_) => None,
    }
}

/// The serialization (`to_string`) of the URL `url::Url::parse` makes of a
/// string, or nothing when the parse refuses it.
pub uninterp spec fn url_serialization(u: Seq<char>) -> Option<Seq<char>>;

/// Calls `url::Url::parse` and serializes the result with `to_string`. The
/// result is a function of the string alone; the contract names it, and it
/// is present exactly when the parse succeeds, as for `url_parts`.
#[verifier::external_body]
pub(crate) fn serialize_url(u: &str) -> (r: Option<String>)
    ensures
        match (r, url_serialization(u@)) {
            (Some(a), Some(b)) => a@ == b,
            (None, None) => true,
            _ => false,
        },
        r is Some <==> url_parts(u@) is Some,
{
    url::Url::parse(u).ok().map(|p| p.to_string())
}

/// Why a URL could not be resolved against a base.
#[derive(Debug, Clone, Copy, PartialEq, Eq, Structural)]
pub enum UrlJoinError {
    /// The base URL does not parse.
    InvalidBase,
    /// The input cannot be resolved against the base.
    JoinFailed,
}

/// The serialization of `input` resolved against the base URL `base`.
pub uninterp spec fn url_join_spec(base: Seq<char>, input: Seq<char>) -> Result<Seq<char>, UrlJoinError>;

/// Calls `url::Url::parse(base)` then `Url::join(input)` and serializes the
/// result. The result is a function of the two strings alone; the contract
/// names it.
#[verifier::external_body]
pub(crate) fn url_join(base: &str, input: &str) -> (r: Result<String, UrlJoinError>)
    ensures
        match (r, url_join_spec(base@, input@)) {
            (Ok(a), Ok(b)) => a@ == b,
            (Err(e), Err(f)) => e == f,
            _ => false,
        },
{
    match url::Url::parse(base) {
        Ok(b) => match b.join(input) {
            Ok(j) => Ok(j.as_str().to_owned()),
            Err(_) => Err(UrlJoinError::JoinFailed),
        },
        Err(_) => Err(UrlJoinError::InvalidBase),
    }
}

} // verus!
