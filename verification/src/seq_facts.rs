//! General facts about filtering sequences.

use vstd::prelude::*;

verus! {

broadcast use vstd::seq_lib::group_to_multiset_ensures;

/// Filtering keeps everything when every element passes.
pub proof fn lemma_filter_all<A>(s: Seq<A>, p: spec_fn(A) -> bool)
    requires
        forall|i: int| 0 <= i < s.len() ==> p(s[i]),
    ensures
        s.filter(p) == s,
    decreases s.len(),
{
    if s.len() > 0 {
        lemma_filter_all(s.drop_last(), p);
        s.drop_last().lemma_filter_push(s.last(), p);
        assert(s.drop_last().push(s.last()) == s);
    } else {
        reveal(Seq::filter);
    }
}

/// Filtering a concatenation filters each part.
pub proof fn lemma_filter_add<A>(a: Seq<A>, b: Seq<A>, p: spec_fn(A) -> bool)
    ensures
        (a + b).filter(p) == a.filter(p) + b.filter(p),
{
    Seq::filter_distributes_over_add(a, b, p);
}

/// The parts passing and failing a predicate together hold the whole.
pub proof fn lemma_filter_partition<A>(s: Seq<A>, p: spec_fn(A) -> bool)
    ensures
        s.filter(p).to_multiset().add(s.filter(|x: A| !p(x)).to_multiset()) == s.to_multiset(),
    decreases s.len(),
{
    let q = |x: A| !p(x);
    if s.len() == 0 {
        reveal(Seq::filter);
        assert(s.filter(p) == s);
        assert(s.filter(q) == s);
    } else {
        let d = s.drop_last();
        lemma_filter_partition(d, p);
        d.lemma_filter_push(s.last(), p);
        d.lemma_filter_push(s.last(), q);
        assert(d.push(s.last()) == s);
    }
}

/// Filtering out the single failing element removes exactly that position.
pub proof fn lemma_filter_one_out<A>(s: Seq<A>, p: spec_fn(A) -> bool, i: int)
    requires
        0 <= i < s.len(),
        !p(s[i]),
        forall|j: int| 0 <= j < s.len() && j != i ==> p(s[j]),
    ensures
        s.filter(p) == s.take(i) + s.skip(i + 1),
{
    let a = s.take(i);
    let b = s.skip(i + 1);
    assert(s == a + seq![s[i]] + b);
    lemma_filter_all(a, p);
    lemma_filter_all(b, p);
    lemma_filter_add(a + seq![s[i]], b, p);
    lemma_filter_add(a, seq![s[i]], p);
    assert(seq![s[i]].filter(p) == Seq::<A>::empty()) by {
        assert(seq![s[i]] == Seq::<A>::empty().push(s[i]));
        Seq::<A>::empty().lemma_filter_push(s[i], p);
        reveal(Seq::filter);
    }
    assert(a + Seq::<A>::empty() == a);
}

/// Removing the one element with a key and putting it back at the end
/// gives the same multiset.
pub proof fn lemma_remove_one_then_push<A>(s: Seq<A>, p: spec_fn(A) -> bool, i: int)
    requires
        0 <= i < s.len(),
        !p(s[i]),
        forall|j: int| 0 <= j < s.len() && j != i ==> p(s[j]),
    ensures
        s.filter(p).push(s[i]).to_multiset() == s.to_multiset(),
{
    let a = s.take(i);
    let b = s.skip(i + 1);
    assert(s == a + seq![s[i]] + b);
    lemma_filter_all(a, p);
    lemma_filter_all(b, p);
    lemma_filter_add(a + seq![s[i]], b, p);
    lemma_filter_add(a, seq![s[i]], p);
    reveal(Seq::filter);
    assert(seq![s[i]].filter(p) == Seq::<A>::empty()) by {
        assert(seq![s[i]] == Seq::<A>::empty().push(s[i]));
        Seq::<A>::empty().lemma_filter_push(s[i], p);
        assert(Seq::<A>::empty().filter(p) == Seq::<A>::empty());
    }
    assert(s.filter(p) == a + b);
    vstd::seq_lib::lemma_multiset_commutative(a + b, seq![s[i]]);
    vstd::seq_lib::lemma_multiset_commutative(a, b);
    vstd::seq_lib::lemma_multiset_commutative(a + seq![s[i]], b);
    vstd::seq_lib::lemma_multiset_commutative(a, seq![s[i]]);
    assert((a + b).push(s[i]) == (a + b) + seq![s[i]]);
}

} // verus!
