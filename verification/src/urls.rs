//! URL validation and normalization, through the `url` crate.
//!
//! Provider endpoints are compared by their normalized URL form, so every
//! string that enters the library as an endpoint passes through
//! `normalize_url` first.

use vstd::prelude::*;

verus! {

/// The normalized serialization of the URL that `url::Url::parse` yields
/// for `s`, or `None` when `s` is not an absolute URL. Parsing depends on
/// the input string alone.
pub uninterp spec fn url_norm(s: Seq<char>) -> Option<Seq<char>>;

#[verifier::external_type_specification]
#[verifier::external_body]
pub struct ExUrlParseError(url::ParseError);

/// Relies on `url::Url::parse` to validate an endpoint and on
/// `Url::as_str` for the parsed URL's normalized serialization; both
/// depend on the input string alone.
#[verifier::external_body]
pub(crate) fn normalize_url(s: &str) -> (r: Result<String, url::ParseError>)
    ensures
        r is Ok <==> url_norm(s@) is Some,
        r is Ok ==> Some(r->Ok_0@) == url_norm(s@),
{
    match url::Url::parse(s) {
        Ok(u) => Ok(String::from(u.as_str())),
        Err(e) => Err(e),
    }
}

} // verus!
