//! Sorting by insertion, stated for any order.

use vstd::prelude::*;

verus! {

/// `before` is a strict order in which "does not come after" is transitive
/// too, so that elements which are not ordered either way count as equal.
pub open spec fn is_strict_order<T>(before: spec_fn(T, T) -> bool) -> bool {
    &&& forall|a: T| !#[trigger] before(a, a)
    &&& forall|a: T, b: T, c: T| #[trigger] before(a, b) && #[trigger] before(b, c) ==> before(a, c)
    &&& forall|a: T, b: T, c: T|
        !#[trigger] before(a, b) && !#[trigger] before(b, c) ==> !before(a, c)
}

/// No element stands before one that comes before it in the order.
pub open spec fn sorted<T>(s: Seq<T>, before: spec_fn(T, T) -> bool) -> bool {
    forall|i: int, j: int| 0 <= i < j < s.len() ==> !before(#[trigger] s[j], #[trigger] s[i])
}

/// Where `x` goes into sorted `s`: behind every element that does not come
/// after it.
pub open spec fn insertion_point<T>(s: Seq<T>, x: T, before: spec_fn(T, T) -> bool) -> int
    decreases s.len(),
{
    if s.len() > 0 && before(x, s.last()) {
        insertion_point(s.drop_last(), x, before)
    } else {
        s.len() as int
    }
}

/// `s` with `x` put in at its place.
pub open spec fn insert_sorted<T>(s: Seq<T>, x: T, before: spec_fn(T, T) -> bool) -> Seq<T> {
    s.insert(insertion_point(s, x, before), x)
}

/// `s` in order; elements that count as equal keep the order they had.
pub open spec fn insertion_sort<T>(s: Seq<T>, before: spec_fn(T, T) -> bool) -> Seq<T>
    decreases s.len(),
{
    if s.len() == 0 {
        Seq::empty()
    } else {
        insert_sorted(insertion_sort(s.drop_last(), before), s.last(), before)
    }
}

/// The insertion point lies within the sequence.
pub proof fn lemma_insertion_point_bounds<T>(s: Seq<T>, x: T, before: spec_fn(T, T) -> bool)
    ensures
        0 <= insertion_point(s, x, before) <= s.len(),
    decreases s.len(),
{
    if s.len() > 0 && before(x, s.last()) {
        lemma_insertion_point_bounds(s.drop_last(), x, before);
    }
}

/// The insertion point splits a sorted sequence: every element from it on
/// comes after `x`, and none before it does.
pub proof fn lemma_insertion_point_splits<T>(s: Seq<T>, x: T, before: spec_fn(T, T) -> bool)
    requires
        is_strict_order(before),
        sorted(s, before),
    ensures
        0 <= insertion_point(s, x, before) <= s.len(),
        forall|j: int| insertion_point(s, x, before) <= j < s.len() ==> before(x, #[trigger] s[j]),
        forall|i: int| 0 <= i < insertion_point(s, x, before) ==> !before(x, #[trigger] s[i]),
    decreases s.len(),
{
    if s.len() > 0 && before(x, s.last()) {
        let rest = s.drop_last();
        assert(sorted(rest, before)) by {
            assert forall|i: int, j: int| 0 <= i < j < rest.len() implies !before(
                #[trigger] rest[j],
                #[trigger] rest[i],
            ) by {
                assert(rest[j] == s[j] && rest[i] == s[i]);
            }
        }
        lemma_insertion_point_splits(rest, x, before);
        let p = insertion_point(rest, x, before);
        assert forall|j: int| p <= j < s.len() implies before(x, #[trigger] s[j]) by {
            if j < rest.len() {
                assert(rest[j] == s[j]);
            }
        }
        assert forall|i: int| 0 <= i < p implies !before(x, #[trigger] s[i]) by {
            assert(rest[i] == s[i]);
        }
    } else if s.len() > 0 {
        let last = s.len() - 1;
        assert forall|i: int| 0 <= i < s.len() implies !before(x, #[trigger] s[i]) by {
            if i < last {
                assert(!before(s[last], s[i]));
            }
        }
    }
}

/// Putting an element in at its place keeps a sorted sequence sorted.
pub proof fn lemma_insert_sorted<T>(s: Seq<T>, x: T, before: spec_fn(T, T) -> bool)
    requires
        is_strict_order(before),
        sorted(s, before),
    ensures
        sorted(insert_sorted(s, x, before), before),
{
    lemma_insertion_point_splits(s, x, before);
    let p = insertion_point(s, x, before);
    let out = insert_sorted(s, x, before);
    assert forall|i: int, j: int| 0 <= i < j < out.len() implies !before(
        #[trigger] out[j],
        #[trigger] out[i],
    ) by {
        if j < p {
            assert(out[i] == s[i] && out[j] == s[j]);
        } else if j == p {
            assert(out[i] == s[i]);
        } else if i < p {
            assert(out[i] == s[i] && out[j] == s[j - 1]);
        } else if i == p {
            assert(out[j] == s[j - 1]);
            assert(before(x, s[j - 1]));
            if before(s[j - 1], x) {
                assert(before(x, x));
            }
        } else {
            assert(out[i] == s[i - 1] && out[j] == s[j - 1]);
        }
    }
}

/// What insertion sort gives is sorted.
pub proof fn lemma_insertion_sort_sorted<T>(s: Seq<T>, before: spec_fn(T, T) -> bool)
    requires
        is_strict_order(before),
    ensures
        sorted(insertion_sort(s, before), before),
    decreases s.len(),
{
    if s.len() > 0 {
        lemma_insertion_sort_sorted(s.drop_last(), before);
        lemma_insert_sorted(insertion_sort(s.drop_last(), before), s.last(), before);
    }
}

/// Insertion sort neither drops nor adds nor changes an element.
pub proof fn lemma_insertion_sort_permutes<T>(s: Seq<T>, before: spec_fn(T, T) -> bool)
    ensures
        insertion_sort(s, before).to_multiset() == s.to_multiset(),
        insertion_sort(s, before).len() == s.len(),
    decreases s.len(),
{
    if s.len() == 0 {
        assert(s =~= Seq::empty());
    } else {
        let rest = s.drop_last();
        let done = insertion_sort(rest, before);
        lemma_insertion_sort_permutes(rest, before);
        lemma_insertion_point_bounds(done, s.last(), before);
        vstd::seq_lib::to_multiset_insert(done, insertion_point(done, s.last(), before), s.last());
        vstd::seq_lib::to_multiset_build(rest, s.last());
        assert(rest.push(s.last()) =~= s);
    }
}

/// Any two different elements of `s` are ordered one way or the other.
pub open spec fn totally_ordered<T>(s: Seq<T>, before: spec_fn(T, T) -> bool) -> bool {
    forall|i: int, j: int|
        0 <= i < s.len() && 0 <= j < s.len() && #[trigger] s[i] != #[trigger] s[j] ==> before(
            s[i],
            s[j],
        ) || before(s[j], s[i])
}

/// Two sorted sequences of the same elements, any two of which are ordered,
/// are the same sequence.
pub proof fn lemma_sorted_is_unique<T>(x: Seq<T>, y: Seq<T>, before: spec_fn(T, T) -> bool)
    requires
        sorted(x, before),
        sorted(y, before),
        totally_ordered(x, before),
        x.to_multiset() == y.to_multiset(),
    ensures
        x == y,
    decreases x.len(),
{
    x.to_multiset_ensures();
    y.to_multiset_ensures();
    if x.len() == 0 {
        assert(x =~= y);
    } else {
        let a = x[0];
        let b = y[0];
        assert(x.contains(a));
        assert(y.contains(b));
        assert(y.to_multiset().count(a) > 0);
        assert(x.to_multiset().count(b) > 0);
        let j = choose|j: int| 0 <= j < y.len() && y[j] == a;
        let i = choose|i: int| 0 <= i < x.len() && x[i] == b;
        if a != b {
            assert(!before(x[i], x[0]));
            assert(!before(y[j], y[0]));
            assert(x[0] != x[i]);
        }
        let xs = x.drop_first();
        let ys = y.drop_first();
        assert(xs =~= x.remove(0));
        assert(ys =~= y.remove(0));
        vstd::seq_lib::to_multiset_remove(x, 0);
        vstd::seq_lib::to_multiset_remove(y, 0);
        assert(sorted(xs, before)) by {
            assert forall|i: int, j: int| 0 <= i < j < xs.len() implies !before(
                #[trigger] xs[j],
                #[trigger] xs[i],
            ) by {
                assert(xs[j] == x[j + 1] && xs[i] == x[i + 1]);
            }
        }
        assert(sorted(ys, before)) by {
            assert forall|i: int, j: int| 0 <= i < j < ys.len() implies !before(
                #[trigger] ys[j],
                #[trigger] ys[i],
            ) by {
                assert(ys[j] == y[j + 1] && ys[i] == y[i + 1]);
            }
        }
        assert(totally_ordered(xs, before)) by {
            assert forall|i: int, j: int|
                0 <= i < xs.len() && 0 <= j < xs.len() && #[trigger] xs[i]
                    != #[trigger] xs[j] implies before(xs[i], xs[j]) || before(xs[j], xs[i]) by {
                assert(xs[i] == x[i + 1] && xs[j] == x[j + 1]);
            }
        }
        lemma_sorted_is_unique(xs, ys, before);
        assert(x =~= seq![a] + xs);
        assert(y =~= seq![b] + ys);
    }
}

/// Picking and mapping goes through concatenation.
pub proof fn lemma_filter_map_concat<A, B>(s: Seq<A>, t: Seq<A>, f: spec_fn(A) -> Option<B>)
    ensures
        (s + t).filter_map(f) == s.filter_map(f) + t.filter_map(f),
    decreases t.len(),
{
    if t.len() == 0 {
        assert(s + t =~= s);
        assert(s.filter_map(f) + t.filter_map(f) =~= s.filter_map(f));
    } else {
        lemma_filter_map_concat(s, t.drop_last(), f);
        assert((s + t).drop_last() =~= s + t.drop_last());
        assert((s + t).last() == t.last());
        match f(t.last()) {
            Some(b) => {
                assert((s + t).filter_map(f) =~= s.filter_map(f) + t.filter_map(f));
            },
            None => {},
        }
    }
}

/// What is picked and mapped from a sequence depends, up to its order, only
/// on the elements of the sequence and not on their order.
pub proof fn lemma_filter_map_permutes<A, B>(s: Seq<A>, t: Seq<A>, f: spec_fn(A) -> Option<B>)
    requires
        s.to_multiset() == t.to_multiset(),
    ensures
        s.filter_map(f).to_multiset() == t.filter_map(f).to_multiset(),
    decreases s.len(),
{
    s.to_multiset_ensures();
    t.to_multiset_ensures();
    if s.len() == 0 {
        assert(t.len() == 0);
        assert(s =~= t);
    } else {
        let x = s.last();
        let head = s.drop_last();
        assert(s.contains(x));
        assert(t.to_multiset().count(x) > 0);
        let k = choose|k: int| 0 <= k < t.len() && t[k] == x;
        let rest = t.remove(k);
        assert(head =~= s.remove(s.len() - 1));
        vstd::seq_lib::to_multiset_remove(s, s.len() - 1);
        vstd::seq_lib::to_multiset_remove(t, k);
        lemma_filter_map_permutes(head, rest, f);
        let left = t.take(k);
        let right = t.skip(k + 1);
        assert(t =~= left + seq![x] + right);
        assert(rest =~= left + right);
        lemma_filter_map_concat(left + seq![x], right, f);
        lemma_filter_map_concat(left, seq![x], f);
        lemma_filter_map_concat(left, right, f);
        lemma_filter_map_concat(head, seq![x], f);
        assert(s =~= head + seq![x]);
        let one = seq![x].filter_map(f);
        vstd::seq_lib::lemma_multiset_commutative(left.filter_map(f) + one, right.filter_map(f));
        vstd::seq_lib::lemma_multiset_commutative(left.filter_map(f), one);
        vstd::seq_lib::lemma_multiset_commutative(left.filter_map(f), right.filter_map(f));
        vstd::seq_lib::lemma_multiset_commutative(head.filter_map(f), one);
        assert(t.filter_map(f).to_multiset() =~= rest.filter_map(f).to_multiset().add(
            one.to_multiset(),
        ));
    }
}

} // verus!
