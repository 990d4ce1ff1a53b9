//! Facts about filtered sequences that the proofs about the tables use.

use vstd::prelude::*;

verus! {

/// A filter that no item passes leaves nothing.
pub proof fn lemma_filter_none<T>(s: Seq<T>, p: spec_fn(T) -> bool)
    requires
        forall|i: int| 0 <= i < s.len() ==> !p(s[i]),
    ensures
        s.filter(p) == Seq::<T>::empty(),
    decreases s.len(),
{
    reveal(Seq::filter);
    if s.len() > 0 {
        let front = s.drop_last();
        assert(forall|i: int| 0 <= i < front.len() ==> front[i] == s[i]);
        lemma_filter_none(front, p);
        assert(!p(s[s.len() - 1]));
    }
}

/// A filter that every item passes changes nothing.
pub proof fn lemma_filter_all<T>(s: Seq<T>, p: spec_fn(T) -> bool)
    requires
        forall|i: int| 0 <= i < s.len() ==> p(s[i]),
    ensures
        s.filter(p) == s,
    decreases s.len(),
{
    reveal(Seq::filter);
    if s.len() > 0 {
        let front = s.drop_last();
        assert(forall|i: int| 0 <= i < front.len() ==> front[i] == s[i]);
        lemma_filter_all(front, p);
        assert(p(s[s.len() - 1]));
        assert(front.push(s.last()) =~= s);
    } else {
        assert(s.filter(p) =~= s);
    }
}

/// A filter that every item passes but the one at `k` removes that item.
pub proof fn lemma_filter_one_out<T>(s: Seq<T>, p: spec_fn(T) -> bool, k: int)
    requires
        0 <= k < s.len(),
        !p(s[k]),
        forall|i: int| 0 <= i < s.len() && i != k ==> p(s[i]),
    ensures
        s.filter(p) == s.remove(k),
    decreases s.len(),
{
    reveal(Seq::filter);
    let front = s.drop_last();
    assert(forall|i: int| 0 <= i < front.len() ==> front[i] == s[i]);
    if k == s.len() - 1 {
        lemma_filter_all(front, p);
        assert(s.remove(k) =~= front);
    } else {
        lemma_filter_one_out(front, p, k);
        assert(p(s[s.len() - 1]));
        assert(front.remove(k).push(s.last()) =~= s.remove(k));
    }
}

/// Filtering a sequence from `i - 1` on: the item at `i - 1`, if it passes,
/// then what the filter leaves from `i` on.
pub proof fn lemma_filter_suffix_step<T>(s: Seq<T>, p: spec_fn(T) -> bool, i: int)
    requires
        0 < i <= s.len(),
    ensures
        s.skip(i - 1).filter(p) == if p(s[i - 1]) {
            seq![s[i - 1]] + s.skip(i).filter(p)
        } else {
            s.skip(i).filter(p)
        },
{
    let head = seq![s[i - 1]];
    assert(s.skip(i - 1) =~= head + s.skip(i));
    Seq::filter_distributes_over_add(head, s.skip(i), p);
    reveal_with_fuel(Seq::filter, 2);
    assert(head.drop_last() =~= Seq::<T>::empty());
    if p(s[i - 1]) {
        assert(head.filter(p) =~= head);
    } else {
        assert(head.filter(p) =~= Seq::<T>::empty());
        assert(Seq::<T>::empty() + s.skip(i).filter(p) =~= s.skip(i).filter(p));
    }
}

/// Filtering a sequence with one more item at its end.
pub proof fn lemma_filter_push<T>(s: Seq<T>, p: spec_fn(T) -> bool, x: T)
    ensures
        s.push(x).filter(p) == if p(x) {
            s.filter(p).push(x)
        } else {
            s.filter(p)
        },
{
    reveal(Seq::filter);
    assert(s.push(x).drop_last() =~= s);
}

/// Two tests that agree on every item of a sequence filter it alike.
pub proof fn lemma_filter_agree<T>(s: Seq<T>, p: spec_fn(T) -> bool, q: spec_fn(T) -> bool)
    requires
        forall|i: int| 0 <= i < s.len() ==> p(s[i]) == q(s[i]),
    ensures
        s.filter(p) == s.filter(q),
    decreases s.len(),
{
    reveal(Seq::filter);
    if s.len() > 0 {
        let front = s.drop_last();
        assert(forall|i: int| 0 <= i < front.len() ==> front[i] == s[i]);
        lemma_filter_agree(front, p, q);
        assert(p(s[s.len() - 1]) == q(s[s.len() - 1]));
    }
}

/// Two filters can be applied in either order.
pub proof fn lemma_filter_commutes<T>(s: Seq<T>, p: spec_fn(T) -> bool, q: spec_fn(T) -> bool)
    ensures
        s.filter(p).filter(q) == s.filter(q).filter(p),
    decreases s.len(),
{
    reveal(Seq::filter);
    if s.len() > 0 {
        let front = s.drop_last();
        let last = s.last();
        lemma_filter_commutes(front, p, q);
        lemma_filter_push(front.filter(p), q, last);
        lemma_filter_push(front.filter(q), p, last);
    }
}

} // verus!
