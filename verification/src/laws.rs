//! The general properties of the parse, stated and proved against the model.

use vstd::prelude::*;

use crate::error::ErrorKind;
use crate::model::drain;
use crate::model::has_next_token;
use crate::model::is_next_tok;
use crate::model::is_rel_name;
use crate::model::lemma_drain_leftover;
use crate::model::lemma_read_link_value_size;
use crate::model::lemma_scan_param_size;
use crate::model::lower_code;
use crate::model::next_links_spec;
use crate::model::read_link_value;
use crate::model::scan_param;
use crate::model::state_size;
use crate::model::ScanState;

verus! {

/// One link-value of a well-formed header: its URI text and the value of
/// its first `rel` parameter, if it has one.
pub struct LinkValue {
    pub uri: Seq<char>,
    pub rel: Option<Seq<char>>,
}

/// Whether a link-value's first `rel` parameter lists the relation `next`.
pub open spec fn lv_matches(lv: LinkValue) -> bool {
    lv.rel matches Some(v) && has_next_token(v)
}

/// The same grammar walk as [`next_links_spec`], but keeping every
/// link-value with its recorded `rel`, matched or not.
pub open spec fn link_values_spec(s: Seq<char>) -> Result<Seq<LinkValue>, ErrorKind>
    decreases s.len(),
    via link_values_spec_decreases
{
    if s.len() == 0 {
        Ok(Seq::empty())
    } else {
        match read_link_value(s) {
            Ok(lv) => match drain(lv.1, None) {
                Ok(res) => match link_values_spec(res.1) {
                    Ok(rest) => Ok(seq![LinkValue { uri: lv.0, rel: res.0 }] + rest),
                    Err(k) => Err(k),
                },
                Err(k) => Err(k),
            },
            Err(k) => Err(k),
        }
    }
}

#[via_fn]
proof fn link_values_spec_decreases(s: Seq<char>) {
    if s.len() > 0 {
        lemma_read_link_value_size(s);
        if read_link_value(s) is Ok {
            lemma_drain_leftover(read_link_value(s)->Ok_0.1, None);
        }
    }
}

/// The URIs of the matching link-values, in their original order.
pub open spec fn matched_uris(lvs: Seq<LinkValue>) -> Seq<Seq<char>>
    decreases lvs.len(),
{
    if lvs.len() == 0 {
        Seq::empty()
    } else if lv_matches(lvs[0]) {
        seq![lvs[0].uri] + matched_uris(lvs.drop_first())
    } else {
        matched_uris(lvs.drop_first())
    }
}

/// Order preservation: the parse returns exactly the URIs of the
/// link-values whose first `rel` parameter lists `next`, in the order those
/// link-values stand in the header; and on a malformed header both walks
/// report the same failure.
pub proof fn lemma_result_order(s: Seq<char>)
    ensures
        match link_values_spec(s) {
            Ok(lvs) => next_links_spec(s) == Ok::<_, ErrorKind>(matched_uris(lvs)),
            Err(k) => next_links_spec(s) == Err::<Seq<Seq<char>>, _>(k),
        },
    decreases s.len(),
{
    if s.len() > 0 && read_link_value(s) is Ok {
        let lv = read_link_value(s)->Ok_0;
        lemma_read_link_value_size(s);
        lemma_drain_leftover(lv.1, None);
        if drain(lv.1, None) is Ok {
            let res = drain(lv.1, None)->Ok_0;
            lemma_result_order(res.1);
            if link_values_spec(res.1) is Ok {
                let rest = link_values_spec(res.1)->Ok_0;
                let head = LinkValue { uri: lv.0, rel: res.0 };
                let all = seq![head] + rest;
                assert(all[0] == head);
                assert(all.drop_first() =~= rest);
                if lv_matches(head) {
                    assert(matched_uris(all) == seq![lv.0] + matched_uris(rest));
                } else {
                    assert(matched_uris(all) == matched_uris(rest));
                }
            }
        }
    }
}

proof fn lemma_matched_uris_none(lvs: Seq<LinkValue>)
    requires
        forall|i: int| 0 <= i < lvs.len() ==> !lv_matches(#[trigger] lvs[i]),
    ensures
        matched_uris(lvs) == Seq::<Seq<char>>::empty(),
    decreases lvs.len(),
{
    if lvs.len() > 0 {
        assert(forall|i: int|
            0 <= i < lvs.drop_first().len() ==> lvs.drop_first()[i] == lvs[i + 1]);
        lemma_matched_uris_none(lvs.drop_first());
    }
}

/// A header in which no link-value's first `rel` parameter lists `next`
/// parses to the empty sequence.
pub proof fn lemma_no_match_empty(s: Seq<char>)
    requires
        link_values_spec(s) is Ok,
        forall|i: int|
            0 <= i < link_values_spec(s)->Ok_0.len() ==> !lv_matches(
                #[trigger] link_values_spec(s)->Ok_0[i],
            ),
    ensures
        next_links_spec(s) == Ok::<Seq<Seq<char>>, ErrorKind>(Seq::empty()),
{
    lemma_result_order(s);
    lemma_matched_uris_none(link_values_spec(s)->Ok_0);
}

/// First occurrence wins: once a `rel` value has been recorded for a
/// link-value, draining the remaining parameters never replaces it,
/// whatever later `rel` parameters hold.
pub proof fn lemma_first_rel_wins(st: ScanState, v: Seq<char>)
    ensures
        drain(st, Some(v)) matches Ok(res) ==> res.0 == Some(v),
    decreases state_size(st),
{
    match st {
        ScanState::NextUri(_) => (),
        ScanState::Params(p) => {
            lemma_scan_param_size(p);
            if scan_param(p) is Ok {
                lemma_first_rel_wins(scan_param(p)->Ok_0.2, v);
            }
        },
    }
}

/// Parameter-name matching conflates ASCII letter case and nothing else: a
/// name is taken for `rel` exactly when it is the three letters `r`, `e`,
/// `l`, each in either case. No character outside the ASCII letters is
/// folded.
pub proof fn lemma_rel_match_ascii_case_only(name: Seq<char>)
    ensures
        is_rel_name(name) <==> (name.len() == 3 && (name[0] == 'r' || name[0] == 'R') && (name[1]
            == 'e' || name[1] == 'E') && (name[2] == 'l' || name[2] == 'L')),
{
    reveal_strlit("rel");
    if is_rel_name(name) {
        assert(lower_code(name[0]) == lower_code('r'));
        assert(lower_code(name[1]) == lower_code('e'));
        assert(lower_code(name[2]) == lower_code('l'));
    }
}

/// Relation-token matching conflates ASCII letter case and nothing else: a
/// token is taken for `next` exactly when it is the four letters `n`, `e`,
/// `x`, `t`, each in either case.
pub proof fn lemma_next_match_ascii_case_only(t: Seq<char>)
    ensures
        is_next_tok(t) <==> (t.len() == 4 && (t[0] == 'n' || t[0] == 'N') && (t[1] == 'e' || t[1]
            == 'E') && (t[2] == 'x' || t[2] == 'X') && (t[3] == 't' || t[3] == 'T')),
{
    reveal_strlit("next");
    if is_next_tok(t) {
        assert(lower_code(t[0]) == lower_code('n'));
        assert(lower_code(t[1]) == lower_code('e'));
        assert(lower_code(t[2]) == lower_code('x'));
        assert(lower_code(t[3]) == lower_code('t'));
    }
}

/// The parse is a pure function of the header text: two headers with the
/// same characters yield the same outcome. Together with the contracts of
/// [`crate::NextLinks::from_str`] and [`crate::next_link_texts`], whose
/// results are pinned to `next_links_spec` and `url_parse_of` alone, this
/// says that re-parsing a header can never yield a different sequence.
pub proof fn lemma_parse_pure(s1: Seq<char>, s2: Seq<char>)
    requires
        s1 == s2,
    ensures
        next_links_spec(s1) == next_links_spec(s2),
{
}

} // verus!
