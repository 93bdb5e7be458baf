//! The executable header parser: the URI token reader and the parameter
//! scanner, each proved to agree with the model in [`crate::model`].
//!
//! Nothing here copies the header: every function hands back borrowed views
//! into the text it was given, advanced left to right.

use vstd::prelude::*;
use vstd::string::StrSliceExecFns;

use crate::error::Error;
use crate::error::ErrorKind;
use crate::model::classify;
use crate::model::classify_raw;
use crate::model::find_first;
use crate::model::has_next_token;
use crate::model::is_ws;
use crate::model::lemma_find_first_is;
use crate::model::lemma_find_first_none;
use crate::model::lemma_find_first_props;
use crate::model::lower_code;
use crate::model::read_link_value;
use crate::model::scan_param;
use crate::model::seq_eqi;
use crate::model::trim_end_spec;
use crate::model::trim_start_spec;
use crate::model::ScanState;

verus! {

fn ws_char(c: char) -> (r: bool)
    ensures
        r == is_ws(c),
{
    c == ' ' || c == '\t'
}

/// Removes leading horizontal whitespace (space and tab only).
pub fn trim_start_http_whitespaces(s: &str) -> (r: &str)
    ensures
        r@ == trim_start_spec(s@),
{
    let n = s.unicode_len();
    let mut i: usize = 0;
    proof {
        assert(s@.skip(0) =~= s@);
    }
    while i < n && ws_char(s.get_char(i))
        invariant
            i <= n,
            n == s@.len(),
            trim_start_spec(s@) == trim_start_spec(s@.skip(i as int)),
        decreases n - i,
    {
        proof {
            assert(s@.skip(i as int).drop_first() =~= s@.skip(i as int + 1));
        }
        i = i + 1;
    }
    proof {
        if i == n {
            assert(s@.skip(i as int) =~= Seq::<char>::empty());
        }
    }
    s.substring_char(i, n)
}

/// Removes trailing horizontal whitespace (space and tab only).
pub fn trim_end_http_whitespaces(s: &str) -> (r: &str)
    ensures
        r@ == trim_end_spec(s@),
{
    let n = s.unicode_len();
    let mut j: usize = n;
    proof {
        assert(s@.take(n as int) =~= s@);
    }
    while j > 0 && ws_char(s.get_char(j - 1))
        invariant
            j <= n,
            n == s@.len(),
            trim_end_spec(s@) == trim_end_spec(s@.take(j as int)),
        decreases j,
    {
        proof {
            assert(s@.take(j as int).drop_last() =~= s@.take(j as int - 1));
        }
        j = j - 1;
    }
    proof {
        if j == 0 {
            assert(s@.take(0) =~= Seq::<char>::empty());
        }
    }
    s.substring_char(0, j)
}

/// Position of the first occurrence of `a` or `b` in `s`, if any.
fn find_in(s: &str, a: char, b: char) -> (r: Option<usize>)
    ensures
        match r {
            Some(i) => find_first(s@, a, b) == i as int,
            None => find_first(s@, a, b) < 0,
        },
{
    let n = s.unicode_len();
    let mut i: usize = 0;
    while i < n
        invariant
            i <= n,
            n == s@.len(),
            forall|j: int| 0 <= j < i ==> !(s@[j] == a || s@[j] == b),
        decreases n - i,
    {
        let c = s.get_char(i);
        if c == a || c == b {
            proof {
                lemma_find_first_is(s@, a, b, i as int);
            }
            return Some(i);
        }
        i = i + 1;
    }
    proof {
        lemma_find_first_none(s@, a, b);
    }
    None
}

fn lower_u32(c: char) -> (r: u32)
    ensures
        r as int == lower_code(c),
{
    let v = c as u32;
    if 65 <= v && v <= 90 {
        v + 32
    } else {
        v
    }
}

/// ASCII case-insensitive string comparison; characters outside the ASCII
/// letters are compared exactly.
pub(crate) fn str_eqi(x: &str, y: &str) -> (r: bool)
    ensures
        r == seq_eqi(x@, y@),
{
    let nx = x.unicode_len();
    let ny = y.unicode_len();
    if nx != ny {
        return false;
    }
    let mut i: usize = 0;
    while i < nx
        invariant
            i <= nx,
            nx == x@.len(),
            nx == y@.len(),
            forall|j: int| 0 <= j < i ==> lower_code(x@[j]) == lower_code(y@[j]),
        decreases nx - i,
    {
        if lower_u32(x.get_char(i)) != lower_u32(y.get_char(i)) {
            assert(lower_code(x@[i as int]) != lower_code(y@[i as int]));
            return false;
        }
        i = i + 1;
    }
    true
}

/// Whether the token list `v`, split on horizontal whitespace, contains the
/// relation token `next`, ASCII case-insensitively.
pub(crate) fn has_next(v: &str) -> (r: bool)
    ensures
        r == has_next_token(v@),
{
    let mut cur: &str = v;
    loop
        invariant
            has_next_token(v@) == has_next_token(cur@),
        decreases cur@.len(),
    {
        let n = cur.unicode_len();
        match find_in(cur, ' ', '\t') {
            None => {
                return str_eqi(cur, "next");
            },
            Some(d) => {
                proof {
                    lemma_find_first_props(cur@, ' ', '\t');
                }
                let tok = cur.substring_char(0, d);
                proof {
                    assert(tok@ =~= cur@.take(d as int));
                }
                if str_eqi(tok, "next") {
                    return true;
                }
                let rest = cur.substring_char(d + 1, n);
                proof {
                    assert(rest@ =~= cur@.skip(d as int + 1));
                }
                cur = rest;
            },
        }
    }
}

/// The parameter scanner of one link-value: either more raw parameter text
/// remains to be scanned, or the scanner is terminal and holds the text
/// starting at the next link-value (or the empty end of input).
#[derive(Clone, Copy)]
pub enum ParamsIter<'a> {
    Params(&'a str),
    NextUri(&'a str),
}

impl<'a> View for ParamsIter<'a> {
    type V = ScanState;

    open spec fn view(&self) -> ScanState {
        match *self {
            ParamsIter::Params(t) => ScanState::Params(t@),
            ParamsIter::NextUri(t) => ScanState::NextUri(t@),
        }
    }
}

impl<'a> ParamsIter<'a> {
    /// Seeds a scanner from the text following a `>` (or a quoted value),
    /// discarding leading horizontal whitespace first.
    pub fn new(rest: &'a str) -> (r: Result<Self, Error>)
        ensures
            match classify(rest@) {
                Ok(st) => r matches Ok(pi) && pi@ == st,
                Err(k) => r matches Err(e) && e.kind == k && e.cause is None,
            },
    {
        Self::new_without_trim(trim_start_http_whitespaces(rest))
    }

    /// Seeds a scanner from text already known to carry no leading
    /// whitespace: a leading `;` announces parameters, a leading `,` or the
    /// end of input ends the link-value, anything else fails.
    pub fn new_without_trim(rest: &'a str) -> (r: Result<Self, Error>)
        ensures
            match classify_raw(rest@) {
                Ok(st) => r matches Ok(pi) && pi@ == st,
                Err(k) => r matches Err(e) && e.kind == k && e.cause is None,
            },
    {
        let n = rest.unicode_len();
        if n == 0 {
            return Ok(ParamsIter::NextUri(rest));
        }
        let c = rest.get_char(0);
        let tail = rest.substring_char(1, n);
        proof {
            assert(tail@ =~= rest@.drop_first());
        }
        if c == ';' {
            Ok(ParamsIter::Params(trim_start_http_whitespaces(tail)))
        } else if c == ',' {
            Ok(ParamsIter::NextUri(trim_start_http_whitespaces(tail)))
        } else {
            Err(Error::syntax(ErrorKind::ExpectedSeparatorOrTermination))
        }
    }

    /// After the scanner has reported exhaustion, the text of the next
    /// link-value; `None` while parameters remain.
    pub fn into_next_uri(self) -> (r: Option<&'a str>)
        ensures
            self@ matches ScanState::NextUri(t) ==> r matches Some(u) && u@ == t,
            self@ matches ScanState::Params(_) ==> r is None,
    {
        match self {
            ParamsIter::NextUri(t) => Some(t),
            ParamsIter::Params(_) => None,
        }
    }

    /// Produces the next `(name, value)` parameter pair, a terminal signal
    /// (`None`), or the parse failure the parameter text forces. Agrees
    /// exactly with one [`scan_param`] step of the model.
    pub fn next(&mut self) -> (r: Option<Result<(&'a str, &'a str), Error>>)
        ensures
            old(self)@ matches ScanState::NextUri(_) ==> r is None && final(self)@ == old(self)@,
            old(self)@ matches ScanState::Params(p) ==> match scan_param(p) {
                Ok(step) => (r matches Some(Ok(nv)) && nv.0@ == step.0 && nv.1@ == step.1)
                    && final(self)@ == step.2,
                Err(k) => (r matches Some(Err(e)) && e.kind == k && e.cause is None)
                    && final(self)@ == old(self)@,
            },
    {
        let cur = *self;
        let params: &'a str = match cur {
            ParamsIter::Params(p) => p,
            ParamsIter::NextUri(_) => {
                return None;
            },
        };
        let n = params.unicode_len();
        let eq = match find_in(params, '=', '=') {
            Some(i) => i,
            None => {
                return Some(Err(Error::syntax(ErrorKind::MissingEquals)));
            },
        };
        proof {
            lemma_find_first_props(params@, '=', '=');
        }
        let name = trim_end_http_whitespaces(params.substring_char(0, eq));
        let after_eq = params.substring_char(eq + 1, n);
        let rest = trim_start_http_whitespaces(after_eq);
        proof {
            assert(params@.subrange(0, eq as int) =~= params@.take(eq as int));
            assert(after_eq@ =~= params@.skip(eq as int + 1));
        }
        let rn = rest.unicode_len();
        if rn > 0 && rest.get_char(0) == '"' {
            let tail = rest.substring_char(1, rn);
            proof {
                assert(tail@ =~= rest@.drop_first());
            }
            match find_in(tail, '"', '"') {
                None => Some(Err(Error::syntax(ErrorKind::UnclosedQuote))),
                Some(q) => {
                    proof {
                        lemma_find_first_props(tail@, '"', '"');
                    }
                    let value = tail.substring_char(0, q);
                    let after = tail.substring_char(q + 1, rn - 1);
                    proof {
                        assert(value@ =~= rest@.subrange(1, q as int + 1));
                        assert(after@ =~= rest@.skip(q as int + 2));
                    }
                    match Self::new(after) {
                        Ok(st) => {
                            *self = st;
                            Some(Ok((name, value)))
                        },
                        Err(e) => Some(Err(e)),
                    }
                },
            }
        } else {
            match find_in(rest, ',', ';') {
                Some(d) => {
                    proof {
                        lemma_find_first_props(rest@, ',', ';');
                    }
                    let value = rest.substring_char(0, d);
                    let after = rest.substring_char(d, rn);
                    proof {
                        assert(value@ =~= rest@.take(d as int));
                        assert(after@ =~= rest@.skip(d as int));
                    }
                    match Self::new_without_trim(after) {
                        Ok(st) => {
                            *self = st;
                            Some(Ok((name, value)))
                        },
                        Err(e) => Some(Err(e)),
                    }
                },
                None => {
                    let empty_rest = rest.substring_char(rn, rn);
                    proof {
                        assert(empty_rest@ =~= Seq::<char>::empty());
                    }
                    *self = ParamsIter::NextUri(empty_rest);
                    Some(Ok((name, rest)))
                },
            }
        }
    }
}

/// Reads one link-value from the head of `s`: the verbatim URI text between
/// `<` and `>`, and a parameter scanner positioned just after it. Agrees
/// exactly with [`read_link_value`] of the model.
pub fn parse_uri(s: &str) -> (r: Result<(&str, ParamsIter<'_>), Error>)
    ensures
        match read_link_value(s@) {
            Ok(lv) => r matches Ok(pr) && pr.0@ == lv.0 && pr.1@ == lv.1,
            Err(k) => r matches Err(e) && e.kind == k && e.cause is None,
        },
{
    let t = trim_start_http_whitespaces(s);
    let n = t.unicode_len();
    if n == 0 || t.get_char(0) != '<' {
        return Err(Error::syntax(ErrorKind::ExpectedOpenAngle));
    }
    let tail = t.substring_char(1, n);
    proof {
        assert(tail@ =~= t@.drop_first());
    }
    match find_in(tail, '>', '>') {
        None => Err(Error::syntax(ErrorKind::ExpectedCloseAngle)),
        Some(g) => {
            proof {
                lemma_find_first_props(tail@, '>', '>');
            }
            let uri = tail.substring_char(0, g);
            let rest = tail.substring_char(g + 1, n - 1);
            proof {
                assert(uri@ =~= t@.subrange(1, g as int + 1));
                assert(rest@ =~= t@.skip(g as int + 2));
            }
            match ParamsIter::new(rest) {
                Ok(pi) => Ok((uri, pi)),
                Err(e) => Err(e),
            }
        },
    }
}

} // verus!
