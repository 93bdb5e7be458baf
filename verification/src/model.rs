//! Mathematical model of the `Link` header grammar.
//!
//! Everything here is specification-level: sequences of characters stand for
//! the header text, and the functions below define what each parsing step
//! yields. The executable parser in [`crate::parser`] is proved to agree with
//! this model exactly.

use vstd::prelude::*;

use crate::error::ErrorKind;

verus! {

/// Horizontal (HTTP) whitespace: space and horizontal tab only.
pub open spec fn is_ws(c: char) -> bool {
    c == ' ' || c == '\t'
}

/// The suffix of `s` that remains after removing leading horizontal whitespace.
pub open spec fn trim_start_spec(s: Seq<char>) -> Seq<char>
    decreases s.len(),
{
    if s.len() > 0 && is_ws(s[0]) {
        trim_start_spec(s.drop_first())
    } else {
        s
    }
}

/// The prefix of `s` that remains after removing trailing horizontal whitespace.
pub open spec fn trim_end_spec(s: Seq<char>) -> Seq<char>
    decreases s.len(),
{
    if s.len() > 0 && is_ws(s.last()) {
        trim_end_spec(s.drop_last())
    } else {
        s
    }
}

/// Index of the first occurrence of `a` or `b` in `s`, or -1 if neither occurs.
pub open spec fn find_first(s: Seq<char>, a: char, b: char) -> int
    decreases s.len(),
{
    if s.len() == 0 {
        -1
    } else if s[0] == a || s[0] == b {
        0
    } else if find_first(s.drop_first(), a, b) < 0 {
        -1
    } else {
        find_first(s.drop_first(), a, b) + 1
    }
}

pub proof fn lemma_trim_start_len(s: Seq<char>)
    ensures
        trim_start_spec(s).len() <= s.len(),
    decreases s.len(),
{
    if s.len() > 0 && is_ws(s[0]) {
        lemma_trim_start_len(s.drop_first());
    }
}

pub proof fn lemma_trim_end_len(s: Seq<char>)
    ensures
        trim_end_spec(s).len() <= s.len(),
    decreases s.len(),
{
    if s.len() > 0 && is_ws(s.last()) {
        lemma_trim_end_len(s.drop_last());
    }
}

/// What `find_first` returns is the first hit: it is a hit, everything before
/// it is not, and a negative answer means there is no hit at all.
pub proof fn lemma_find_first_props(s: Seq<char>, a: char, b: char)
    ensures
        find_first(s, a, b) >= 0 ==> find_first(s, a, b) < s.len() && (s[find_first(s, a, b)] == a
            || s[find_first(s, a, b)] == b) && (forall|i: int|
            0 <= i < find_first(s, a, b) ==> !(s[i] == a || s[i] == b)),
        find_first(s, a, b) < 0 ==> forall|i: int| 0 <= i < s.len() ==> !(s[i] == a || s[i] == b),
    decreases s.len(),
{
    if s.len() == 0 {
    } else if s[0] == a || s[0] == b {
    } else {
        lemma_find_first_props(s.drop_first(), a, b);
        assert forall|i: int| 1 <= i < s.len() implies s[i] == s.drop_first()[i - 1] by {}
    }
}

/// A position that is a hit, with no hit before it, is what `find_first` returns.
pub proof fn lemma_find_first_is(s: Seq<char>, a: char, b: char, j: int)
    requires
        0 <= j < s.len(),
        s[j] == a || s[j] == b,
        forall|i: int| 0 <= i < j ==> !(s[i] == a || s[i] == b),
    ensures
        find_first(s, a, b) == j,
    decreases s.len(),
{
    if j == 0 {
    } else {
        assert forall|i: int| 1 <= i < s.len() implies s[i] == s.drop_first()[i - 1] by {}
        lemma_find_first_is(s.drop_first(), a, b, j - 1);
    }
}

/// When no position of `s` holds `a` or `b`, `find_first` reports none.
pub proof fn lemma_find_first_none(s: Seq<char>, a: char, b: char)
    requires
        forall|i: int| 0 <= i < s.len() ==> !(s[i] == a || s[i] == b),
    ensures
        find_first(s, a, b) < 0,
    decreases s.len(),
{
    if s.len() > 0 {
        assert forall|i: int| 1 <= i < s.len() implies s[i] == s.drop_first()[i - 1] by {}
        lemma_find_first_none(s.drop_first(), a, b);
    }
}

/// The ASCII code of `c`, with the letters `A`..`Z` folded to lower case.
/// Characters outside that range, ASCII or not, are left untouched.
pub open spec fn lower_code(c: char) -> int {
    if 65 <= c as int && c as int <= 90 {
        c as int + 32
    } else {
        c as int
    }
}

/// ASCII case-insensitive equality of two character sequences.
pub open spec fn seq_eqi(x: Seq<char>, y: Seq<char>) -> bool {
    x.len() == y.len() && forall|i: int| 0 <= i < x.len() ==> lower_code(x[i]) == lower_code(y[i])
}

/// Whether a parameter name is `rel`, ASCII case-insensitively.
pub open spec fn is_rel_name(name: Seq<char>) -> bool {
    seq_eqi(name, "rel"@)
}

/// Whether a relation token is `next`, ASCII case-insensitively.
pub open spec fn is_next_tok(t: Seq<char>) -> bool {
    seq_eqi(t, "next"@)
}

/// Whether the token list `r`, split on horizontal whitespace, contains the
/// relation token `next`.
pub open spec fn has_next_token(r: Seq<char>) -> bool
    decreases r.len(),
    via has_next_token_decreases
{
    if find_first(r, ' ', '\t') < 0 {
        is_next_tok(r)
    } else {
        is_next_tok(r.take(find_first(r, ' ', '\t'))) || has_next_token(
            r.skip(find_first(r, ' ', '\t') + 1),
        )
    }
}

#[via_fn]
proof fn has_next_token_decreases(r: Seq<char>) {
    lemma_find_first_props(r, ' ', '\t');
}

/// The parameter scanner's state after some step of the walk: either more
/// parameter text remains for the current link-value, or the scanner is
/// terminal and holds the text of the next link-value (possibly empty).
pub enum ScanState {
    Params(Seq<char>),
    NextUri(Seq<char>),
}

/// The text a scanner state still holds.
pub open spec fn text_len(st: ScanState) -> nat {
    match st {
        ScanState::Params(p) => p.len(),
        ScanState::NextUri(t) => t.len(),
    }
}

/// A measure that drops strictly at every parameter the scanner yields.
pub open spec fn state_size(st: ScanState) -> nat {
    match st {
        ScanState::Params(p) => p.len() + 1,
        ScanState::NextUri(_) => 0,
    }
}

/// Classification of the text that follows a value or a URI token: a leading
/// `;` announces another parameter, a leading `,` or end of input ends the
/// link-value, anything else is a failure.
pub open spec fn classify_raw(rest: Seq<char>) -> Result<ScanState, ErrorKind> {
    if rest.len() > 0 && rest[0] == ';' {
        Ok(ScanState::Params(trim_start_spec(rest.drop_first())))
    } else if rest.len() > 0 && rest[0] == ',' {
        Ok(ScanState::NextUri(trim_start_spec(rest.drop_first())))
    } else if rest.len() == 0 {
        Ok(ScanState::NextUri(rest))
    } else {
        Err(ErrorKind::ExpectedSeparatorOrTermination)
    }
}

/// [`classify_raw`] after discarding leading horizontal whitespace.
pub open spec fn classify(rest: Seq<char>) -> Result<ScanState, ErrorKind> {
    classify_raw(trim_start_spec(rest))
}

/// One step of the parameter scanner on the parameter text `params`: the
/// `(name, value)` pair it yields and the state it moves to, or the failure
/// it reports. The name is everything before the first `=`, trimmed at its
/// end; the value is either the text between a pair of quotes (taken
/// verbatim) or the unquoted text up to the next delimiter.
pub open spec fn scan_param(params: Seq<char>) -> Result<
    (Seq<char>, Seq<char>, ScanState),
    ErrorKind,
> {
    let eq = find_first(params, '=', '=');
    if eq < 0 {
        Err(ErrorKind::MissingEquals)
    } else {
        let name = trim_end_spec(params.take(eq));
        let rest = trim_start_spec(params.skip(eq + 1));
        if rest.len() > 0 && rest[0] == '"' {
            let q = find_first(rest.drop_first(), '"', '"');
            if q < 0 {
                Err(ErrorKind::UnclosedQuote)
            } else {
                match classify(rest.skip(q + 2)) {
                    Ok(st) => Ok((name, rest.subrange(1, q + 1), st)),
                    Err(k) => Err(k),
                }
            }
        } else {
            let d = find_first(rest, ',', ';');
            if d >= 0 {
                match classify_raw(rest.skip(d)) {
                    Ok(st) => Ok((name, rest.take(d), st)),
                    Err(k) => Err(k),
                }
            } else {
                Ok((name, rest, ScanState::NextUri(Seq::empty())))
            }
        }
    }
}

pub proof fn lemma_classify_raw_size(rest: Seq<char>)
    ensures
        classify_raw(rest) matches Ok(st) ==> state_size(st) <= rest.len() && text_len(st)
            <= rest.len(),
{
    if rest.len() > 0 && (rest[0] == ';' || rest[0] == ',') {
        lemma_trim_start_len(rest.drop_first());
    }
}

pub proof fn lemma_classify_size(rest: Seq<char>)
    ensures
        classify(rest) matches Ok(st) ==> state_size(st) <= rest.len() && text_len(st)
            <= rest.len(),
{
    lemma_trim_start_len(rest);
    lemma_classify_raw_size(trim_start_spec(rest));
}

/// Each parameter the scanner yields strictly shrinks its state, and the
/// state never holds more text than the parameter text it came from.
pub proof fn lemma_scan_param_size(params: Seq<char>)
    ensures
        scan_param(params) matches Ok(step) ==> state_size(step.2) <= params.len() && text_len(
            step.2,
        ) <= params.len(),
{
    let eq = find_first(params, '=', '=');
    lemma_find_first_props(params, '=', '=');
    if eq >= 0 {
        let rest = trim_start_spec(params.skip(eq + 1));
        lemma_trim_start_len(params.skip(eq + 1));
        if rest.len() > 0 && rest[0] == '"' {
            let q = find_first(rest.drop_first(), '"', '"');
            lemma_find_first_props(rest.drop_first(), '"', '"');
            if q >= 0 {
                lemma_classify_size(rest.skip(q + 2));
            }
        } else {
            let d = find_first(rest, ',', ';');
            lemma_find_first_props(rest, ',', ';');
            if d >= 0 {
                lemma_classify_raw_size(rest.skip(d));
            }
        }
    }
}

/// Draining the scanner: walk every remaining parameter, record the value of
/// the first `rel` parameter and ignore every later one, and report the first
/// failure at once. On success, hand back the recorded `rel` value and the
/// leftover text of the next link-value.
pub open spec fn drain(st: ScanState, rel: Option<Seq<char>>) -> Result<
    (Option<Seq<char>>, Seq<char>),
    ErrorKind,
>
    decreases state_size(st),
    via drain_decreases
{
    match st {
        ScanState::NextUri(left) => Ok((rel, left)),
        ScanState::Params(params) => match scan_param(params) {
            Ok(step) => drain(
                step.2,
                if rel is None && is_rel_name(step.0) {
                    Some(step.1)
                } else {
                    rel
                },
            ),
            Err(k) => Err(k),
        },
    }
}

#[via_fn]
proof fn drain_decreases(st: ScanState, rel: Option<Seq<char>>) {
    match st {
        ScanState::Params(params) => lemma_scan_param_size(params),
        ScanState::NextUri(_) => (),
    }
}

/// The leftover text the drained scanner reports never exceeds the text the
/// scanner started from.
pub proof fn lemma_drain_leftover(st: ScanState, rel: Option<Seq<char>>)
    ensures
        drain(st, rel) matches Ok(res) ==> res.1.len() <= text_len(st),
    decreases state_size(st),
{
    match st {
        ScanState::NextUri(_) => (),
        ScanState::Params(params) => {
            lemma_scan_param_size(params);
            if scan_param(params) is Ok {
                let step = scan_param(params)->Ok_0;
                lemma_drain_leftover(
                    step.2,
                    if rel is None && is_rel_name(step.0) {
                        Some(step.1)
                    } else {
                        rel
                    },
                );
            }
        },
    }
}

/// Reading one link-value from the head of `s`: after optional whitespace a
/// `<` must open the URI token and a `>` must close it; the URI text between
/// them is taken verbatim. What follows the `>` seeds the parameter scanner.
pub open spec fn read_link_value(s: Seq<char>) -> Result<(Seq<char>, ScanState), ErrorKind> {
    let t = trim_start_spec(s);
    if t.len() == 0 || t[0] != '<' {
        Err(ErrorKind::ExpectedOpenAngle)
    } else {
        let g = find_first(t.drop_first(), '>', '>');
        if g < 0 {
            Err(ErrorKind::ExpectedCloseAngle)
        } else {
            match classify(t.skip(g + 2)) {
                Ok(st) => Ok((t.subrange(1, g + 1), st)),
                Err(k) => Err(k),
            }
        }
    }
}

/// A successful read of a link-value consumes at least the two angle
/// brackets: the scanner's text is shorter than `s` by at least two.
pub proof fn lemma_read_link_value_size(s: Seq<char>)
    ensures
        read_link_value(s) matches Ok(res) ==> text_len(res.1) + 2 <= s.len(),
{
    let t = trim_start_spec(s);
    lemma_trim_start_len(s);
    if t.len() > 0 && t[0] == '<' {
        let g = find_first(t.drop_first(), '>', '>');
        lemma_find_first_props(t.drop_first(), '>', '>');
        if g >= 0 {
            lemma_classify_size(t.skip(g + 2));
        }
    }
}

/// The whole parse: the ordered sequence of URI texts of the link-values
/// whose first `rel` parameter's token list contains `next`, or the first
/// failure anywhere in the header. The empty header yields the empty
/// sequence.
pub open spec fn next_links_spec(s: Seq<char>) -> Result<Seq<Seq<char>>, ErrorKind>
    decreases s.len(),
    via next_links_spec_decreases
{
    if s.len() == 0 {
        Ok(Seq::empty())
    } else {
        match read_link_value(s) {
            Ok(lv) => match drain(lv.1, None) {
                Ok(res) => match next_links_spec(res.1) {
                    Ok(rest) => Ok(
                        if res.0 matches Some(v) && has_next_token(v) {
                            seq![lv.0] + rest
                        } else {
                            rest
                        },
                    ),
                    Err(k) => Err(k),
                },
                Err(k) => Err(k),
            },
            Err(k) => Err(k),
        }
    }
}

#[via_fn]
proof fn next_links_spec_decreases(s: Seq<char>) {
    if s.len() > 0 {
        lemma_read_link_value_size(s);
        if read_link_value(s) is Ok {
            lemma_drain_leftover(read_link_value(s)->Ok_0.1, None);
        }
    }
}

} // verus!
