//! Facts about filtering and mapping sequences.

use vstd::prelude::*;
use vstd::seq_lib::{
    lemma_multiset_commutative, to_multiset_contains, to_multiset_len, to_multiset_remove,
};

verus! {

/// What `f` keeps of a single item, as a sequence.
pub open spec fn kept<A, B>(f: spec_fn(A) -> Option<B>, x: A) -> Seq<B> {
    match f(x) {
        Some(y) => seq![y],
        None => Seq::empty(),
    }
}

/// Filtering and mapping a sequence with one more item at its end.
pub proof fn lemma_filter_map_push<A, B>(s: Seq<A>, x: A, f: spec_fn(A) -> Option<B>)
    ensures
        s.push(x).filter_map(f) == s.filter_map(f) + kept(f, x),
{
    assert(s.push(x).drop_last() == s);
    match f(x) {
        Some(y) => {},
        None => {
            assert(s.filter_map(f) + Seq::<B>::empty() == s.filter_map(f));
        },
    }
}

/// Filtering and mapping goes through concatenation.
pub proof fn lemma_filter_map_concat<A, B>(a: Seq<A>, b: Seq<A>, f: spec_fn(A) -> Option<B>)
    ensures
        (a + b).filter_map(f) == a.filter_map(f) + b.filter_map(f),
    decreases b.len(),
{
    if b.len() == 0 {
        assert(a + b == a);
        assert(a.filter_map(f) + b.filter_map(f) == a.filter_map(f));
    } else {
        let front = b.drop_last();
        lemma_filter_map_concat(a, front, f);
        assert(a + b == (a + front).push(b.last()));
        assert(b == front.push(b.last()));
        lemma_filter_map_push(a + front, b.last(), f);
        lemma_filter_map_push(front, b.last(), f);
        assert((a.filter_map(f) + front.filter_map(f)) + kept(f, b.last()) == a.filter_map(f) + (
        front.filter_map(f) + kept(f, b.last())));
    }
}

/// What `f` keeps of an item of `s` is an item of the filtered and mapped sequence.
pub proof fn lemma_filter_map_member<A, B>(s: Seq<A>, f: spec_fn(A) -> Option<B>, i: int)
    requires
        0 <= i < s.len(),
        f(s[i]) is Some,
    ensures
        s.filter_map(f).contains(f(s[i])->0),
    decreases s.len(),
{
    let y = f(s[i])->0;
    let front = s.drop_last();
    assert(s == front.push(s.last()));
    lemma_filter_map_push(front, s.last(), f);
    if i == s.len() - 1 {
        let out = s.filter_map(f);
        assert(out[out.len() - 1] == y);
    } else {
        lemma_filter_map_member(front, f, i);
        let k = choose|k: int| 0 <= k < front.filter_map(f).len() && front.filter_map(f)[k] == y;
        assert(s.filter_map(f)[k] == y);
    }
}

/// Every item of the filtered and mapped sequence is what `f` keeps of an item of `s`.
pub proof fn lemma_filter_map_origin<A, B>(s: Seq<A>, f: spec_fn(A) -> Option<B>, y: B) -> (i: int)
    requires
        s.filter_map(f).contains(y),
    ensures
        0 <= i < s.len(),
        f(s[i]) == Some(y),
    decreases s.len(),
{
    if s.len() == 0 {
        0
    } else {
        let front = s.drop_last();
        assert(s == front.push(s.last()));
        lemma_filter_map_push(front, s.last(), f);
        if f(s.last()) == Some(y) {
            s.len() - 1
        } else {
            let out = s.filter_map(f);
            let k = choose|k: int| 0 <= k < out.len() && out[k] == y;
            assert(k < front.filter_map(f).len());
            assert(front.filter_map(f)[k] == y);
            lemma_filter_map_origin(front, f, y)
        }
    }
}

/// Two sequences with the same items, counted, keep the same items, counted.
pub proof fn lemma_filter_map_permutation<A, B>(a: Seq<A>, b: Seq<A>, f: spec_fn(A) -> Option<B>)
    requires
        a.to_multiset() == b.to_multiset(),
    ensures
        a.filter_map(f).to_multiset() == b.filter_map(f).to_multiset(),
    decreases a.len(),
{
    to_multiset_len(a);
    to_multiset_len(b);
    if a.len() == 0 {
        assert(b.len() == 0);
    } else {
        let x = a.last();
        let front = a.drop_last();
        assert(a[a.len() - 1] == x);
        to_multiset_contains(a, x);
        to_multiset_contains(b, x);
        let j = choose|j: int| 0 <= j < b.len() && b[j] == x;
        let rest = b.remove(j);
        assert(front == a.remove(a.len() - 1));
        to_multiset_remove(a, a.len() - 1);
        to_multiset_remove(b, j);
        lemma_filter_map_permutation(front, rest, f);

        assert(a == front.push(x));
        lemma_filter_map_push(front, x, f);
        lemma_multiset_commutative(front.filter_map(f), kept(f, x));

        let left = b.take(j);
        let right = b.skip(j + 1);
        assert(b == (left + seq![x]) + right);
        assert(rest == left + right);
        assert(left + seq![x] == left.push(x));
        lemma_filter_map_concat(left + seq![x], right, f);
        lemma_filter_map_push(left, x, f);
        lemma_filter_map_concat(left, right, f);
        lemma_multiset_commutative(left.filter_map(f) + kept(f, x), right.filter_map(f));
        lemma_multiset_commutative(left.filter_map(f), kept(f, x));
        lemma_multiset_commutative(left.filter_map(f), right.filter_map(f));
        let l = left.filter_map(f).to_multiset();
        let r = right.filter_map(f).to_multiset();
        let k = kept(f, x).to_multiset();
        assert(l.add(k).add(r) =~= l.add(r).add(k));
    }
}

} // verus!
