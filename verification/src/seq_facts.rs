//! Small facts about `Seq::filter` that the sweep proofs share.
//!
//! A sweep keeps exactly the entries that satisfy a liveness predicate, so its
//! contracts are stated with `Seq::filter`. The lemmas here relate a filter to
//! the stepwise shape of the executable loops: how it grows entry by entry,
//! that it keeps every satisfying element and nothing else, and that running
//! it twice changes nothing.

use vstd::prelude::*;

verus! {

broadcast use vstd::seq_lib::group_filter_ensures;

/// Filtering a sequence extended by one element extends the filtered sequence
/// by that element exactly when the predicate holds of it.
pub proof fn lemma_filter_push<A>(s: Seq<A>, x: A, pred: spec_fn(A) -> bool)
    ensures
        s.push(x).filter(pred) == if pred(x) {
            s.filter(pred).push(x)
        } else {
            s.filter(pred)
        },
{
    reveal(Seq::filter);
    assert(s.push(x).drop_last() =~= s);
    assert(s.push(x).last() == x);
}

/// Everything a filter keeps was in the sequence it was applied to.
pub proof fn lemma_filter_subset<A>(s: Seq<A>, pred: spec_fn(A) -> bool)
    ensures
        forall|x: A| #[trigger] s.filter(pred).contains(x) ==> s.contains(x),
    decreases s.len(),
{
    reveal(Seq::filter);
    if s.len() > 0 {
        lemma_filter_subset(s.drop_last(), pred);
        assert forall|x: A| #[trigger] s.filter(pred).contains(x) implies s.contains(x) by {
            if s.drop_last().filter(pred).contains(x) {
                assert(s.drop_last().contains(x));
                let i = choose|i: int| 0 <= i < s.drop_last().len() && s.drop_last()[i] == x;
                assert(s[i] == x);
            } else {
                assert(x == s.last());
            }
        }
    }
}

/// A filter keeps every element that satisfies the predicate.
pub proof fn lemma_filter_keeps<A>(s: Seq<A>, pred: spec_fn(A) -> bool, x: A)
    requires
        s.contains(x),
        pred(x),
    ensures
        s.filter(pred).contains(x),
{
    let i = choose|i: int| 0 <= i < s.len() && s[i] == x;
    s.lemma_filter_contains(pred, i);
}

/// Filtering is idempotent: a second pass with the same predicate keeps
/// everything the first pass kept.
pub proof fn lemma_filter_idempotent<A>(s: Seq<A>, pred: spec_fn(A) -> bool)
    ensures
        s.filter(pred).filter(pred) == s.filter(pred),
    decreases s.len(),
{
    reveal(Seq::filter);
    if s.len() > 0 {
        lemma_filter_idempotent(s.drop_last(), pred);
        if pred(s.last()) {
            lemma_filter_push(s.drop_last().filter(pred), s.last(), pred);
        }
    }
}

/// Filtering keeps keys distinct: if no two elements of `s` share a key, no
/// two elements of the filtered sequence do either.
pub proof fn lemma_filter_distinct_keys<A>(s: Seq<A>, pred: spec_fn(A) -> bool, key: spec_fn(A) -> u64)
    requires
        forall|i: int, j: int| 0 <= i < j < s.len() ==> key(s[i]) != key(s[j]),
    ensures
        forall|i: int, j: int|
            0 <= i < j < s.filter(pred).len() ==> key(s.filter(pred)[i]) != key(s.filter(pred)[j]),
    decreases s.len(),
{
    reveal(Seq::filter);
    if s.len() > 0 {
        let head = s.drop_last();
        lemma_filter_distinct_keys(head, pred, key);
        lemma_filter_subset(head, pred);
        if pred(s.last()) {
            assert forall|i: int, j: int|
                0 <= i < j < s.filter(pred).len() implies key(s.filter(pred)[i]) != key(
                s.filter(pred)[j],
            ) by {
                let f = s.filter(pred);
                if j < f.len() - 1 {
                    assert(f[i] == head.filter(pred)[i]);
                    assert(f[j] == head.filter(pred)[j]);
                } else {
                    assert(f[j] == s.last());
                    assert(head.filter(pred).contains(f[i]));
                    assert(head.contains(f[i]));
                    let m = choose|m: int| 0 <= m < head.len() && head[m] == f[i];
                    assert(key(s[m]) != key(s[s.len() - 1]));
                }
            }
        }
    }
}

} // verus!
