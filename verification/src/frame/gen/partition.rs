//! How a filter cuts a sequence whose elements pass a test on one side of an
//! index only. The queues keep their entries in time order, so every test on
//! an entry's time against a fixed instant cuts them in this way.

use vstd::prelude::*;

verus! {

/// Where the elements before index `k` pass `keep` and the others fail it, the
/// filter keeps exactly the first `k` elements.
pub proof fn lemma_filter_keeps_prefix<A>(s: Seq<A>, keep: spec_fn(A) -> bool, k: int)
    requires
        0 <= k <= s.len(),
        forall|i: int| 0 <= i < k ==> keep(#[trigger] s[i]),
        forall|i: int| k <= i < s.len() ==> !keep(#[trigger] s[i]),
    ensures
        s.filter(keep) == s.take(k),
    decreases s.len(),
{
    reveal(Seq::filter);
    if s.len() == 0 {
        assert(s.take(k) =~= s);
    } else {
        let front = s.drop_last();
        assert forall|i: int| 0 <= i < front.len() implies front[i] == s[i] by {}
        if k == s.len() {
            lemma_filter_keeps_prefix(front, keep, k - 1);
            assert(front.take(k - 1) =~= front);
            assert(front.push(s.last()) =~= s);
            assert(s.take(k) =~= s);
        } else {
            lemma_filter_keeps_prefix(front, keep, k);
            assert(front.take(k) =~= s.take(k));
        }
    }
}

/// Where the elements before index `k` fail `keep` and the others pass it, the
/// filter keeps exactly the elements from `k` on.
pub proof fn lemma_filter_keeps_suffix<A>(s: Seq<A>, keep: spec_fn(A) -> bool, k: int)
    requires
        0 <= k <= s.len(),
        forall|i: int| 0 <= i < k ==> !keep(#[trigger] s[i]),
        forall|i: int| k <= i < s.len() ==> keep(#[trigger] s[i]),
    ensures
        s.filter(keep) == s.skip(k),
    decreases s.len(),
{
    reveal(Seq::filter);
    if s.len() == 0 {
        assert(s.skip(k) =~= s);
    } else {
        let front = s.drop_last();
        assert forall|i: int| 0 <= i < front.len() implies front[i] == s[i] by {}
        if k == s.len() {
            lemma_filter_keeps_suffix(front, keep, k - 1);
            assert(front.skip(k - 1) =~= Seq::<A>::empty());
            assert(s.skip(k) =~= Seq::<A>::empty());
        } else {
            lemma_filter_keeps_suffix(front, keep, k);
            assert(front.skip(k).push(s.last()) =~= s.skip(k));
        }
    }
}

/// Where the element at index `k` alone passes `keep`, the filter keeps it and
/// nothing else.
pub proof fn lemma_filter_keeps_one<A>(s: Seq<A>, keep: spec_fn(A) -> bool, k: int)
    requires
        0 <= k < s.len(),
        keep(s[k]),
        forall|i: int| 0 <= i < s.len() && i != k ==> !keep(#[trigger] s[i]),
    ensures
        s.filter(keep) == seq![s[k]],
{
    let head = s.take(k + 1);
    let tail = s.skip(k + 1);
    assert(s =~= head + tail);
    Seq::filter_distributes_over_add(head, tail, keep);
    lemma_filter_keeps_prefix(tail, keep, 0);
    lemma_filter_keeps_suffix(head, keep, k);
    assert(tail.take(0) =~= Seq::<A>::empty());
    assert(head.skip(k) =~= seq![s[k]]);
    assert(seq![s[k]] + Seq::<A>::empty() =~= seq![s[k]]);
}

/// Where no element passes `keep`, the filter keeps nothing.
pub proof fn lemma_filter_keeps_none<A>(s: Seq<A>, keep: spec_fn(A) -> bool)
    requires
        forall|i: int| 0 <= i < s.len() ==> !keep(#[trigger] s[i]),
    ensures
        s.filter(keep) == Seq::<A>::empty(),
{
    lemma_filter_keeps_prefix(s, keep, 0);
    assert(s.take(0) =~= Seq::<A>::empty());
}

} // verus!
