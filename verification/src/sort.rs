//! A stable sort by a total preorder, specified by what it keeps: the result
//! is ordered, holds the same items, and items that compare equal keep their
//! relative order.

use vstd::prelude::*;
use vstd::seq_lib::{lemma_multiset_commutative, group_to_multiset_ensures};

verus! {

/// A type ordered by a total preorder with an executable comparison.
pub trait TotalPreorder: Sized {
    spec fn le(a: Self, b: Self) -> bool;

    proof fn le_total(a: Self, b: Self)
        ensures
            Self::le(a, b) || Self::le(b, a),
    ;

    proof fn le_trans(a: Self, b: Self, c: Self)
        requires
            Self::le(a, b),
            Self::le(b, c),
        ensures
            Self::le(a, c),
    ;

    fn le_exec(&self, other: &Self) -> (r: bool)
        ensures
            r == Self::le(*self, *other),
    ;
}

/// `a` and `b` compare equal.
pub open spec fn equiv<T: TotalPreorder>(a: T, b: T) -> bool {
    T::le(a, b) && T::le(b, a)
}

/// The item compares equal to `k`.
pub open spec fn same_class<T: TotalPreorder>(k: T) -> spec_fn(T) -> bool {
    |t: T| equiv(t, k)
}

/// The items of `s` that compare equal to `k`, in order.
pub open spec fn class_of<T: TotalPreorder>(s: Seq<T>, k: T) -> Seq<T> {
    s.filter(same_class(k))
}

pub open spec fn sorted<T: TotalPreorder>(s: Seq<T>) -> bool {
    forall|i: int, j: int| 0 <= i < j < s.len() ==> T::le(#[trigger] s[i], #[trigger] s[j])
}

/// `r` is `s` stably sorted: ordered, the same items, and each class of
/// equal items in its original order.
pub open spec fn stable_sort_of<T: TotalPreorder>(r: Seq<T>, s: Seq<T>) -> bool {
    &&& sorted(r)
    &&& r.to_multiset() == s.to_multiset()
    &&& forall|k: T| #[trigger] class_of(r, k) == class_of(s, k)
}

proof fn lemma_insert_keeps_sorted<T: TotalPreorder>(r: Seq<T>, p: int, x: T)
    requires
        sorted(r),
        0 <= p <= r.len(),
        forall|i: int| 0 <= i < p ==> T::le(#[trigger] r[i], x),
        p < r.len() ==> !T::le(r[p], x),
    ensures
        sorted(r.insert(p, x)),
        forall|i: int| p <= i < r.len() ==> !T::le(#[trigger] r[i], x),
{
    assert forall|i: int| p <= i < r.len() implies !T::le(#[trigger] r[i], x) by {
        if i > p && T::le(r[i], x) {
            T::le_trans(r[p], r[i], x);
        }
    }
    let r2 = r.insert(p, x);
    r.insert_ensures(p, x);
    assert forall|i: int, j: int| 0 <= i < j < r2.len() implies T::le(#[trigger] r2[i], #[trigger] r2[j]) by {
        if j < p {
        } else if j == p {
        } else if i < p {
            assert(r2[j] == r[j - 1]);
        } else if i == p {
            assert(r2[j] == r[j - 1]);
            T::le_total(r[j - 1], x);
        } else {
            assert(r2[i] == r[i - 1]);
            assert(r2[j] == r[j - 1]);
        }
    }
}

proof fn lemma_insert_classes<T: TotalPreorder>(r: Seq<T>, s: Seq<T>, p: int, x: T)
    requires
        0 <= p <= r.len(),
        forall|i: int| p <= i < r.len() ==> !T::le(#[trigger] r[i], x),
        forall|k: T| #[trigger] class_of(r, k) == class_of(s, k),
    ensures
        forall|k: T| #[trigger] class_of(r.insert(p, x), k) == class_of(s.push(x), k),
{
    let a = r.subrange(0, p);
    let b = r.subrange(p, r.len() as int);
    assert(r =~= a + b);
    assert(r.insert(p, x) =~= a.push(x) + b);
    assert forall|k: T| #[trigger] class_of(r.insert(p, x), k) == class_of(s.push(x), k) by {
        let pred = same_class(k);
        Seq::filter_distributes_over_add(a.push(x), b, pred);
        Seq::filter_distributes_over_add(a, b, pred);
        a.lemma_filter_push(x, pred);
        s.lemma_filter_push(x, pred);
        assert(class_of(r, k) == class_of(s, k));
        if pred(x) {
            assert forall|i: int| 0 <= i < b.len() implies !pred(#[trigger] b[i]) by {
                if pred(b[i]) {
                    assert(b[i] == r[p + i]);
                    T::le_trans(b[i], k, x);
                }
            }
            assert(b.all(|t: T| !pred(t)));
            b.lemma_all_neg_filter_empty(pred);
            assert(b.filter(pred) =~= Seq::<T>::empty());
            assert(a.filter(pred) + b.filter(pred) =~= a.filter(pred));
            assert(a.filter(pred).push(x) + b.filter(pred) =~= a.filter(pred).push(x));
        }
    }
}

/// Sorts `v` stably by `T`'s order (insertion sort).
pub fn stable_sort<T: TotalPreorder>(v: Vec<T>) -> (r: Vec<T>)
    ensures
        stable_sort_of(r@, v@),
{
    let ghost s0 = v@;
    let mut src = v;
    let mut out: Vec<T> = Vec::new();
    let ghost mut i: int = 0;
    proof {
        assert(s0.take(0) =~= Seq::<T>::empty());
        assert(s0.skip(0) =~= s0);
        assert forall|k: T| #[trigger] class_of(out@, k) == class_of(s0.take(0), k) by {
            assert(out@ =~= s0.take(0));
        }
    }
    while src.len() > 0
        invariant
            0 <= i <= s0.len(),
            src@ == s0.skip(i),
            sorted(out@),
            out@.to_multiset() == s0.take(i).to_multiset(),
            forall|k: T| #[trigger] class_of(out@, k) == class_of(s0.take(i), k),
        decreases src.len(),
    {
        let x = src.remove(0);
        let ghost prev = out@;
        let mut p: usize = 0;
        while p < out.len() && out[p].le_exec(&x)
            invariant
                out@ == prev,
                p <= out.len(),
                forall|j: int| 0 <= j < p ==> T::le(#[trigger] out@[j], x),
            decreases out.len() - p,
        {
            p = p + 1;
        }
        proof {
            assert(x == s0[i]);
            assert(s0.take(i + 1) =~= s0.take(i).push(x));
            assert(src@ =~= s0.skip(i + 1));
            lemma_insert_keeps_sorted(prev, p as int, x);
            lemma_insert_classes(prev, s0.take(i), p as int, x);
            let a = prev.subrange(0, p as int);
            let b = prev.subrange(p as int, prev.len() as int);
            assert(prev =~= a + b);
            assert(prev.insert(p as int, x) =~= a.push(x) + b);
            broadcast use group_to_multiset_ensures;
            lemma_multiset_commutative(a.push(x), b);
            lemma_multiset_commutative(a, b);
            assert(prev.insert(p as int, x).to_multiset() =~= prev.to_multiset().insert(x));
        }
        out.insert(p, x);
        proof {
            i = i + 1;
        }
    }
    proof {
        assert(s0.take(i) =~= s0);
    }
    out
}

/// Two sorted sequences with the same items and the same order within
/// each class of equal items are the same sequence.
pub proof fn lemma_sorted_classes_determine<T: TotalPreorder>(a: Seq<T>, b: Seq<T>)
    requires
        sorted(a),
        sorted(b),
        a.to_multiset() == b.to_multiset(),
        forall|k: T| #[trigger] class_of(a, k) == class_of(b, k),
    ensures
        a == b,
    decreases a.len(),
{
    vstd::seq_lib::to_multiset_len(a);
    vstd::seq_lib::to_multiset_len(b);
    if a.len() == 0 {
        assert(b.len() == 0);
        assert(a =~= b);
    } else {
        broadcast use group_to_multiset_ensures;
        assert(b.len() == a.len());
        let x = a.last();
        let y = b.last();
        let a0 = a.drop_last();
        let b0 = b.drop_last();
        assert(a =~= a0.push(x));
        assert(b =~= b0.push(y));
        assert(a.contains(x));
        assert(a.to_multiset().count(x) > 0);
        assert(b.to_multiset().count(x) > 0);
        assert(b.contains(x));
        let i = choose|i: int| 0 <= i < b.len() && b[i] == x;
        if i < b.len() - 1 {
            assert(T::le(b[i], b[b.len() - 1]));
        } else {
            T::le_total(x, x);
        }
        assert(a.to_multiset().count(y) > 0);
        assert(a.contains(y));
        let j = choose|j: int| 0 <= j < a.len() && a[j] == y;
        if j < a.len() - 1 {
            assert(T::le(a[j], a[a.len() - 1]));
        } else {
            T::le_total(y, y);
        }
        T::le_total(x, x);
        T::le_total(y, y);
        let px = same_class(x);
        a0.lemma_filter_push(x, px);
        b0.lemma_filter_push(y, px);
        assert(class_of(a, x) == class_of(b, x));
        assert(px(x));
        assert(a.filter(px) == a0.push(x).filter(px));
        assert(a0.push(x).filter(px) == a0.filter(px).push(x));
        assert(class_of(a, x).last() == x);
        assert(class_of(b, x).last() == y);
        assert(x == y);
        assert(a0.to_multiset() == b0.to_multiset()) by {
            assert(a.remove(a.len() - 1) =~= a0);
            assert(b.remove(b.len() - 1) =~= b0);
        }
        assert forall|k: T| #[trigger] class_of(a0, k) == class_of(b0, k) by {
            let pk = same_class(k);
            a0.lemma_filter_push(x, pk);
            b0.lemma_filter_push(x, pk);
            assert(class_of(a, k) == class_of(b, k));
            if pk(x) {
                assert(class_of(a0, k) =~= class_of(a, k).drop_last());
                assert(class_of(b0, k) =~= class_of(b, k).drop_last());
            }
        }
        lemma_sorted_classes_determine(a0, b0);
    }
}

/// Sorting a list that is already in order changes nothing: re-sorting is idempotent.
pub proof fn law_sorting_sorted_is_identity<T: TotalPreorder>(r: Seq<T>, s: Seq<T>)
    requires
        sorted(s),
        stable_sort_of(r, s),
    ensures
        r == s,
{
    lemma_sorted_classes_determine(r, s);
}

/// The stable order of a list is unique: two stable sorts of it agree.
pub proof fn law_stable_sort_unique<T: TotalPreorder>(r1: Seq<T>, r2: Seq<T>, s: Seq<T>)
    requires
        stable_sort_of(r1, s),
        stable_sort_of(r2, s),
    ensures
        r1 == r2,
{
    assert forall|k: T| #[trigger] class_of(r1, k) == class_of(r2, k) by {
        assert(class_of(r1, k) == class_of(s, k));
        assert(class_of(r2, k) == class_of(s, k));
    }
    lemma_sorted_classes_determine(r1, r2);
}

} // verus!
