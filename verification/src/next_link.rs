//! A reduced front end over the same grammar walk: only the first
//! continuation link is kept.
//!
//! [`NextLink`] parses the whole header — a failure anywhere still aborts —
//! but hands out at most one URI text, the first link-value whose `rel`
//! parameter lists `next`.

use vstd::prelude::*;
use vstd::string::StrSliceExecFns;
use vstd::string::StringExecFns;

use crate::error::Error;
use crate::model::next_links_spec;
use crate::next_link_texts;

verus! {

/// The first `rel=next` target of a header, if any.
#[derive(Debug)]
pub struct NextLink(Option<String>);

impl View for NextLink {
    type V = Option<Seq<char>>;

    closed spec fn view(&self) -> Option<Seq<char>> {
        match self.0 {
            Some(u) => Some(u@),
            None => None,
        }
    }
}

impl NextLink {
    /// Parses the header and keeps the URI text of the first link-value
    /// whose first `rel` parameter's token list contains `next`; `None`
    /// inside when no link-value matches. A parse failure anywhere in the
    /// header aborts the whole parse, matched link or not.
    pub fn from_str(s: &str) -> (r: Result<NextLink, Error>)
        ensures
            match next_links_spec(s@) {
                Ok(uris) => r matches Ok(nl) && (if uris.len() == 0 {
                    nl@ is None
                } else {
                    nl@ matches Some(u) && u == uris[0]
                }),
                Err(k) => r matches Err(e) && e.kind == k && e.cause is None,
            },
    {
        let mut texts = match next_link_texts(s) {
            Ok(v) => v,
            Err(e) => {
                return Err(e);
            },
        };
        if texts.len() == 0 {
            Ok(NextLink(None))
        } else {
            Ok(NextLink(Some(texts.remove(0))))
        }
    }

    /// Hands the held URI out, leaving nothing behind: a second call
    /// returns `None`.
    pub fn next(&mut self) -> (r: Option<String>)
        ensures
            final(self)@ is None,
            r matches Some(u) ==> old(self)@ == Some(u@),
            r is None <==> old(self)@ is None,
    {
        self.0.take()
    }
}

impl core::str::FromStr for NextLink {
    type Err = Error;

    fn from_str(s: &str) -> Result<NextLink, Error> {
        NextLink::from_str(s)
    }
}

/// Formats the diagnostic text for an invalid link segment.
pub fn error(msg: &str) -> (r: String)
    ensures
        r@ == "Invalid link segment: "@ + msg@,
{
    let mut m = String::from_str("Invalid link segment: ");
    m.append(msg);
    m
}

/// Strips a leading `quotation.0` and a trailing `quotation.1` from `s`:
/// the enclosed text when both are present, `None` otherwise.
pub fn strip_quotation(s: &str, quotation: (char, char)) -> (r: Option<&str>)
    ensures
        r is Some <==> s@.len() >= 2 && s@.first() == quotation.0 && s@.last() == quotation.1,
        r matches Some(t) ==> t@ == s@.subrange(1, s@.len() - 1),
{
    let n = s.unicode_len();
    if n >= 2 && s.get_char(0) == quotation.0 && s.get_char(n - 1) == quotation.1 {
        Some(s.substring_char(1, n - 1))
    } else {
        None
    }
}

} // verus!
