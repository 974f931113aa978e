use vstd::prelude::*;
use crate::token::{next_boundary, lemma_next_boundary_bounds, split_from, split_spec, SpecToken};
use crate::source::{
    close_quote, indent_at, lemma_close_quote_bounds, lemma_word_end_bounds, scan_from, scan_spec,
    skip_at, word_end, word_break_ok,
};
use crate::error::RudError;

verus! {

/// Token spans stay inside the scanned region and never overlap: every
/// span starts no earlier than `lo`, every span is ordered, and each
/// token ends strictly before the next one starts.
pub open spec fn spans_chained(ts: Seq<SpecToken>, lo: int) -> bool {
    &&& forall|i: int| 0 <= i < ts.len() ==> lo <= #[trigger] ts[i].start <= ts[i].end
    &&& forall|i: int| 0 <= i < ts.len() - 1 ==> #[trigger] ts[i].end < ts[i + 1].start
}

proof fn lemma_spans_weaken(ts: Seq<SpecToken>, lo: int, hi: int)
    requires
        spans_chained(ts, hi),
        lo <= hi,
    ensures
        spans_chained(ts, lo),
{
}

proof fn lemma_spans_cons(t: SpecToken, rest: Seq<SpecToken>, lo: int, p2: int)
    requires
        lo <= t.start <= t.end,
        t.end < p2,
        spans_chained(rest, p2),
    ensures
        spans_chained(seq![t] + rest, lo),
{
    let ts = seq![t] + rest;
    assert forall|i: int| 0 <= i < ts.len() implies lo <= #[trigger] ts[i].start <= ts[i].end by {
        if i > 0 {
            assert(ts[i] == rest[i - 1]);
        }
    }
    assert forall|i: int| 0 <= i < ts.len() - 1 implies #[trigger] ts[i].end < ts[i + 1].start by {
        if i == 0 {
            assert(ts[1] == rest[0]);
        } else {
            assert(ts[i] == rest[i - 1]);
            assert(ts[i + 1] == rest[i]);
        }
    }
}

/// Token spans are non-decreasing: in any successful scan of the buffer
/// from position `p`, every token's span lies at or after `p`, each span
/// is ordered, and each token ends strictly before its successor starts.
pub proof fn lemma_scan_spans_monotonic(s: Seq<char>, p: int, ts: Seq<SpecToken>)
    requires
        0 <= p,
        scan_from(s, p) == Result::<Seq<SpecToken>, RudError>::Ok(ts),
    ensures
        spans_chained(ts, p),
    decreases s.len() - p,
{
    if p >= s.len() {
        assert(ts =~= Seq::<SpecToken>::empty());
    } else if skip_at(s, p) {
        lemma_scan_spans_monotonic(s, p + 1, ts);
        lemma_spans_weaken(ts, p, p + 1);
    } else if s[p] == '\n' {
        let rest = scan_from(s, p + 1)->Ok_0;
        lemma_scan_spans_monotonic(s, p + 1, rest);
        lemma_spans_cons(ts[0], rest, p, p + 1);
        assert(ts =~= seq![ts[0]] + rest);
    } else if indent_at(s, p) {
        let rest = scan_from(s, p + 4)->Ok_0;
        lemma_scan_spans_monotonic(s, p + 4, rest);
        lemma_spans_cons(ts[0], rest, p, p + 4);
        assert(ts =~= seq![ts[0]] + rest);
    } else {
        let q = word_end(s, p);
        lemma_word_end_bounds(s, p);
        if !word_break_ok(s, q) {
        } else if q > p {
            let rest = scan_from(s, q)->Ok_0;
            lemma_scan_spans_monotonic(s, q, rest);
            lemma_spans_cons(ts[0], rest, p, q);
            assert(ts =~= seq![ts[0]] + rest);
        } else if s[p] == '"' {
            lemma_close_quote_bounds(s, p + 1);
            match close_quote(s, p + 1) {
                Option::None => {
                },
                Option::Some(e) => {
                    let rest = scan_from(s, e + 1)->Ok_0;
                    lemma_scan_spans_monotonic(s, e + 1, rest);
                    lemma_spans_cons(ts[0], rest, p, e + 1);
                    assert(ts =~= seq![ts[0]] + rest);
                },
            }
        } else if s[p] == '(' || s[p] == ')' || s[p] == '=' {
            let rest = scan_from(s, p + 1)->Ok_0;
            lemma_scan_spans_monotonic(s, p + 1, rest);
            lemma_spans_cons(ts[0], rest, p, p + 1);
            assert(ts =~= seq![ts[0]] + rest);
        }
    }
}

proof fn lemma_split_from_flatten(ts: Seq<SpecToken>, j: int)
    requires
        0 <= j <= ts.len(),
    ensures
        split_from(ts, j).flatten() == ts.subrange(j, ts.len() as int),
    decreases ts.len() - j,
{
    if j >= ts.len() {
        assert(split_from(ts, j).flatten() =~= Seq::<SpecToken>::empty());
        assert(ts.subrange(j, ts.len() as int) =~= Seq::<SpecToken>::empty());
    } else {
        let b = next_boundary(ts, j + 1);
        lemma_next_boundary_bounds(ts, j + 1);
        lemma_split_from_flatten(ts, b);
        let groups = split_from(ts, j);
        assert(groups == seq![ts.subrange(j, b)] + split_from(ts, b));
        assert(groups.first() == ts.subrange(j, b));
        assert(groups.drop_first() =~= split_from(ts, b));
        assert(groups.flatten() == ts.subrange(j, b) + split_from(ts, b).flatten());
        assert(ts.subrange(j, b) + ts.subrange(b, ts.len() as int) =~= ts.subrange(
            j,
            ts.len() as int,
        ));
    }
}

/// `split` is a partition: concatenating all groups' tokens in order
/// reproduces the original token sequence exactly.
pub proof fn lemma_split_is_partition(ts: Seq<SpecToken>)
    ensures
        split_spec(ts).flatten() == ts,
{
    lemma_split_from_flatten(ts, 0);
    assert(ts.subrange(0, ts.len() as int) =~= ts);
}

proof fn lemma_spaces_scan_tail(s: Seq<char>, p: int)
    requires
        0 <= p <= s.len(),
        s.len() < p + 4,
        forall|i: int| p <= i < s.len() ==> s[i] == ' ',
    ensures
        scan_from(s, p) == Result::<Seq<SpecToken>, RudError>::Ok(Seq::<SpecToken>::empty()),
    decreases s.len() - p,
{
    if p < s.len() {
        assert(!indent_at(s, p));
        assert(skip_at(s, p));
        lemma_spaces_scan_tail(s, p + 1);
    }
}

/// Scanning a run of fewer than four plain spaces consumes them all and
/// produces no token at all: a short run is never an indent.
pub proof fn lemma_short_space_run_scans_empty(s: Seq<char>)
    requires
        s.len() < 4,
        forall|i: int| 0 <= i < s.len() ==> s[i] == ' ',
    ensures
        scan_spec(s) == Result::<Seq<SpecToken>, RudError>::Ok(Seq::<SpecToken>::empty()),
{
    lemma_spaces_scan_tail(s, 0);
}

/// Scanning exactly four plain spaces produces exactly one indent token,
/// four characters wide.
pub proof fn lemma_indent_run_scans_one(s: Seq<char>)
    requires
        s.len() == 4,
        forall|i: int| 0 <= i < s.len() ==> s[i] == ' ',
    ensures
        scan_spec(s) == Result::<Seq<SpecToken>, RudError>::Ok(
            seq![
                crate::token::SpecToken {
                    kind: crate::token::SpecTokenKind::Indent,
                    start: 0,
                    end: 3,
                },
            ],
        ),
{
    assert(indent_at(s, 0));
    assert(!skip_at(s, 0));
    assert(s[0] != '\n');
    assert(scan_from(s, 4) == Result::<Seq<SpecToken>, RudError>::Ok(Seq::<SpecToken>::empty()));
    let t = crate::token::SpecToken { kind: crate::token::SpecTokenKind::Indent, start: 0, end: 3 };
    assert(seq![t] + Seq::<SpecToken>::empty() =~= seq![t]);
}

} // verus!
