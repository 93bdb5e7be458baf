//! Trusted boundary to the URI-parsing collaborator.
//!
//! Whether an extracted URI text is a well-formed absolute URL is not this
//! library's logic: it is delegated to the `url` crate. The parse result is
//! given a name, [`url_parse_of`], so that the contracts of the callers can
//! speak of it exactly; nothing else is assumed of it.

use vstd::prelude::*;

verus! {

#[verifier::external_type_specification]
#[verifier::external_body]
pub struct ExUrl(url::Url);

#[verifier::external_type_specification]
#[verifier::external_body]
pub struct ExParseError(url::ParseError);

pub uninterp spec fn url_parse_of(s: Seq<char>) -> Result<url::Url, url::ParseError>;

/// Relies on `url::Url::parse`: parses an absolute URL from a string, or
/// reports why the string is not one. The result depends on the input text
/// alone.
#[verifier::external_body]
pub(crate) fn url_parse(s: &str) -> (r: Result<url::Url, url::ParseError>)
    ensures
        r == url_parse_of(s@),
{
    url::Url::parse(s)
}

} // verus!
