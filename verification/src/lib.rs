//! Extraction of pagination continuation links from an HTTP `Link` header.
//!
//! The header text is parsed into link-values (`<uri>; name=value; ...`),
//! and the target of every link-value whose first `rel` parameter lists the
//! relation token `next` (ASCII case-insensitively) is returned, in header
//! order. The grammar walk is verified against a mathematical model of the
//! header syntax; see [`model`].

pub mod error;
pub mod laws;
pub mod model;
pub mod next_link;
pub mod parser;
mod uri;

pub use error::Error;
pub use error::ErrorKind;
pub use next_link::NextLink;
pub use url::Url;

use vstd::prelude::*;

use crate::model::drain;
use crate::model::lemma_drain_leftover;
use crate::model::lemma_read_link_value_size;
use crate::model::lemma_scan_param_size;
use crate::model::next_links_spec;
use crate::model::read_link_value;
use crate::model::state_size;
use crate::model::ScanState;
use crate::parser::has_next;
use crate::parser::parse_uri;
use crate::parser::str_eqi;
use crate::uri::url_parse;
pub use crate::uri::url_parse_of;

verus! {

/// The character sequences of a sequence of strings.
pub open spec fn string_views(v: Seq<String>) -> Seq<Seq<char>> {
    Seq::new(v.len(), |i: int| v[i]@)
}

/// The character sequence of an optionally recorded `rel` value.
pub open spec fn opt_view(o: Option<&str>) -> Option<Seq<char>> {
    match o {
        Some(v) => Some(v@),
        None => None,
    }
}

/// The URI texts of every link-value of the header whose first `rel`
/// parameter's token list contains `next`, in header order, or the first
/// parse failure. This is the whole grammar walk; no URI validation is
/// involved.
pub fn next_link_texts(s: &str) -> (r: Result<Vec<String>, Error>)
    ensures
        match next_links_spec(s@) {
            Ok(uris) => r matches Ok(v) && v@.len() == uris.len() && (forall|i: int|
                0 <= i < uris.len() ==> #[trigger] v@[i]@ == uris[i]),
            Err(k) => r matches Err(e) && e.kind == k && e.cause is None,
        },
{
    let mut rem: &str = s;
    let mut out: Vec<String> = Vec::new();
    proof {
        if next_links_spec(s@) is Ok {
            assert(string_views(out@) + next_links_spec(s@)->Ok_0 =~= next_links_spec(s@)->Ok_0);
        }
    }
    while !rem.is_empty()
        invariant
            match next_links_spec(rem@) {
                Ok(rest) => next_links_spec(s@) == Ok::<_, ErrorKind>(string_views(out@) + rest),
                Err(k) => next_links_spec(s@) == Err::<Seq<Seq<char>>, _>(k),
            },
        decreases rem@.len(),
    {
        let (uri, mut params) = match parse_uri(rem) {
            Ok(p) => p,
            Err(e) => {
                return Err(e);
            },
        };
        let ghost lv = read_link_value(rem@)->Ok_0;
        let ghost st0 = params@;
        let mut rel: Option<&str> = None;
        let mut scan_err: Option<Error> = None;
        loop
            invariant_except_break
                drain(st0, None) == drain(params@, opt_view(rel)),
                scan_err is None,
            ensures
                match scan_err {
                    None => drain(st0, None) == drain(params@, opt_view(rel)) && params@ matches
                        ScanState::NextUri(_),
                    Some(e) => drain(st0, None) matches Err(k) && e.kind == k && e.cause is None,
                },
            decreases state_size(params@),
        {
            let ghost pre = params@;
            match params.next() {
                None => {
                    break ;
                },
                Some(res) => match res {
                    Err(e) => {
                        scan_err = Some(e);
                        break ;
                    },
                    Ok(nv) => {
                        proof {
                            match pre {
                                ScanState::Params(p) => lemma_scan_param_size(p),
                                ScanState::NextUri(_) => (),
                            }
                        }
                        if rel.is_none() && str_eqi(nv.0, "rel") {
                            rel = Some(nv.1);
                        }
                    },
                },
            }
        }
        if let Some(e) = scan_err {
            return Err(e);
        }
        let leftover = params.into_next_uri().unwrap();
        proof {
            lemma_read_link_value_size(rem@);
            lemma_drain_leftover(st0, None);
        }
        let matched = match rel {
            Some(v) => has_next(v),
            None => false,
        };
        let ghost out_pre = out@;
        if matched {
            out.push(uri.to_owned());
        }
        proof {
            if next_links_spec(leftover@) is Ok {
                let rest = next_links_spec(leftover@)->Ok_0;
                if matched {
                    assert(string_views(out@) =~= string_views(out_pre).push(uri@));
                    assert(string_views(out_pre) + (seq![lv.0] + rest) =~= string_views(out@)
                        + rest);
                } else {
                    assert(string_views(out@) == string_views(out_pre));
                }
            }
        }
        rem = leftover;
    }
    proof {
        assert(next_links_spec(rem@) == Ok::<_, ErrorKind>(Seq::<Seq<char>>::empty()));
        assert(string_views(out@) + Seq::<Seq<char>>::empty() =~= string_views(out@));
    }
    Ok(out)
}

/// All targets of the header's `rel=next` link-values, parsed as URLs by the
/// URI collaborator, in header order.
#[derive(Debug)]
pub struct NextLinks {
    urls: Vec<url::Url>,
}

impl View for NextLinks {
    type V = Seq<url::Url>;

    closed spec fn view(&self) -> Seq<url::Url> {
        self.urls@
    }
}

impl NextLinks {
    /// Parses every URI whose link-value carries the relation `next`.
    ///
    /// On a grammar failure the corresponding error kind is returned with no
    /// cause attached; when the grammar walk succeeds, each matched URI text
    /// is handed to the URI collaborator in header order, and the first text
    /// it rejects aborts the parse with `InvalidUri`, chaining the
    /// collaborator's failure as the cause.
    pub fn from_str(s: &str) -> (r: Result<NextLinks, Error>)
        ensures
            match next_links_spec(s@) {
                Ok(uris) => match r {
                    Ok(nl) => nl@.len() == uris.len() && (forall|i: int|
                        0 <= i < uris.len() ==> ((#[trigger] url_parse_of(uris[i])) matches Ok(u)
                            && nl@[i] == u)),
                    Err(e) => e.kind == ErrorKind::InvalidUri && (exists|j: int|
                        0 <= j < uris.len() && ((#[trigger] url_parse_of(uris[j])) matches Err(pe)
                            && e.cause == Some(pe)) && (forall|i: int|
                            0 <= i < j ==> #[trigger] url_parse_of(uris[i]) is Ok)),
                },
                Err(k) => r matches Err(e) && e.kind == k && e.cause is None,
            },
    {
        let texts = match next_link_texts(s) {
            Ok(v) => v,
            Err(e) => {
                return Err(e);
            },
        };
        let ghost uris = next_links_spec(s@)->Ok_0;
        let mut urls: Vec<url::Url> = Vec::new();
        let mut i: usize = 0;
        while i < texts.len()
            invariant
                i <= texts@.len(),
                urls@.len() == i,
                next_links_spec(s@) matches Ok(u) && u == uris,
                uris.len() == texts@.len(),
                forall|k: int| 0 <= k < uris.len() ==> #[trigger] texts@[k]@ == uris[k],
                forall|k: int|
                    0 <= k < i ==> ((#[trigger] url_parse_of(uris[k])) matches Ok(u) && urls@[k]
                        == u),
            decreases texts@.len() - i,
        {
            match url_parse(texts[i].as_str()) {
                Ok(u) => urls.push(u),
                Err(pe) => {
                    proof {
                        assert(url_parse_of(uris[i as int]) matches Err(p) && p == pe);
                    }
                    return Err(Error::url_parse_err(pe));
                },
            }
            i = i + 1;
        }
        Ok(NextLinks { urls })
    }

    /// Hands out the parsed URLs in header order, front first.
    pub fn next(&mut self) -> (r: Option<url::Url>)
        ensures
            old(self)@.len() == 0 ==> r is None && final(self)@ == old(self)@,
            old(self)@.len() > 0 ==> (r matches Some(u) && u == old(self)@[0]) && final(self)@
                == old(self)@.drop_first(),
    {
        if self.urls.len() == 0 {
            None
        } else {
            let u = self.urls.remove(0);
            proof {
                assert(self.urls@ =~= old(self)@.drop_first());
            }
            Some(u)
        }
    }
}

impl core::str::FromStr for NextLinks {
    type Err = Error;

    fn from_str(s: &str) -> Result<NextLinks, Error> {
        NextLinks::from_str(s)
    }
}

impl From<NextLinks> for Vec<url::Url> {
    fn from(next_links: NextLinks) -> (r: Vec<url::Url>) {
        next_links.urls
    }
}

impl vstd::std_specs::convert::FromSpecImpl<NextLinks> for Vec<url::Url> {
    open spec fn obeys_from_spec() -> bool {
        true
    }

    closed spec fn from_spec(next_links: NextLinks) -> Self {
        next_links.urls
    }
}

/// Converting a [`NextLinks`] into a `Vec` keeps exactly its URLs, in order.
pub proof fn lemma_from_next_links(next_links: NextLinks)
    ensures
        (<Vec<url::Url> as vstd::std_specs::convert::FromSpec<NextLinks>>::from_spec(next_links))@
            == next_links@,
{
}

} // verus!
