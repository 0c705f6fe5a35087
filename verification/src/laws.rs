//! Laws relating partitioned sequences to sorted copies.
//!
//! The selection routines promise a partitioned result with the original
//! multiset of elements; the lemmas here turn that shape into the statement
//! callers actually care about: the element resting at rank `k` is exactly
//! the element a full sort would have put there, and it is therefore stable
//! under re-selection.

use vstd::prelude::*;
use crate::order::TotalOrder;
use crate::order::le_fn;
use crate::order::lemma_le_fn_total_ordering;
use crate::order::lemma_le_properties;
use crate::partition::partitioned_at;

verus! {

/// The sequence sorted by the element order.
pub open spec fn sorted_copy<T: TotalOrder>(s: Seq<T>) -> Seq<T> {
    s.sort_by(le_fn::<T>())
}

/// Correctness of rank: in any sequence `t` partitioned around `k`, the
/// element at `k` is the `k`-th order statistic — it equals index `k` of a
/// sorted copy of any sequence `s` with the same elements.
pub proof fn lemma_rank_correct<T: TotalOrder>(s: Seq<T>, t: Seq<T>, k: int)
    requires
        s.to_multiset() == t.to_multiset(),
        0 <= k < t.len(),
        partitioned_at(t, k),
    ensures
        t.len() == s.len(),
        t[k] == sorted_copy(s)[k],
        t.subrange(0, k).to_multiset() == sorted_copy(s).subrange(0, k).to_multiset(),
        t.subrange(k + 1, t.len() as int).to_multiset() == sorted_copy(s).subrange(
            k + 1,
            t.len() as int,
        ).to_multiset(),
{
    broadcast use vstd::seq_lib::group_to_multiset_ensures;

    lemma_le_properties::<T>();
    lemma_le_fn_total_ordering::<T>();
    let f = le_fn::<T>();
    let ss = s.sort_by(f);
    s.lemma_sort_by_ensures(f);
    let n = t.len() as int;
    let left = t.subrange(0, k);
    let right = t.subrange(k + 1, n);
    let ls = left.sort_by(f);
    let rs = right.sort_by(f);
    left.lemma_sort_by_ensures(f);
    right.lemma_sort_by_ensures(f);
    let u = ls + seq![t[k]] + rs;
    assert(s.len() == s.to_multiset().len());
    assert(t.len() == t.to_multiset().len());
    assert(ss.len() == ss.to_multiset().len());
    assert(ls.len() == ls.to_multiset().len());
    assert(left.len() == left.to_multiset().len());
    assert(rs.len() == rs.to_multiset().len());
    assert(right.len() == right.to_multiset().len());
    assert(ls.len() == k);
    assert(rs.len() == n - k - 1);
    assert forall|x: T| ls.contains(x) implies left.contains(x) by {
        assert(!left.contains(x) ==> !ls.contains(x));
    }
    assert forall|x: T| rs.contains(x) implies right.contains(x) by {
        assert(!right.contains(x) ==> !rs.contains(x));
    }
    assert forall|ii: int, jj: int| 0 <= ii < jj < u.len() implies #[trigger] f(u[ii], u[jj]) by {
        if ii < k {
            assert(u[ii] == ls[ii]);
            assert(ls.contains(ls[ii]));
            let a = choose|a: int| 0 <= a < left.len() && left[a] == u[ii];
            assert(t[a] == u[ii]);
            assert(t[a].le(t[k]));
        }
        if jj > k {
            assert(u[jj] == rs[jj - k - 1]);
            assert(rs.contains(rs[jj - k - 1]));
            let b = choose|b: int| 0 <= b < right.len() && right[b] == u[jj];
            assert(t[k + 1 + b] == u[jj]);
            assert(t[k].le(t[k + 1 + b]));
        }
    }
    assert(t =~= left + seq![t[k]] + right);
    vstd::seq_lib::lemma_multiset_commutative(left + seq![t[k]], right);
    vstd::seq_lib::lemma_multiset_commutative(left, seq![t[k]]);
    vstd::seq_lib::lemma_multiset_commutative(ls + seq![t[k]], rs);
    vstd::seq_lib::lemma_multiset_commutative(ls, seq![t[k]]);
    assert(u.to_multiset() =~= t.to_multiset());
    vstd::seq_lib::lemma_sorted_unique(u, ss, f);
    assert(u[k] == t[k]);
    assert(ss.subrange(0, k) =~= ls);
    assert(ss.subrange(k + 1, n) =~= rs);
}

/// Strategy agnosticism: two selection runs over the same elements and the
/// same rank `k` agree on the element they leave at index `k`, no matter
/// which pivot strategies they used — any results `t1` and `t2` that are
/// partitioned around `k` and element-preserving carry the sorted copy's
/// `k`-th element there.
pub proof fn lemma_strategy_agnostic<T: TotalOrder>(s: Seq<T>, t1: Seq<T>, t2: Seq<T>, k: int)
    requires
        s.to_multiset() == t1.to_multiset(),
        s.to_multiset() == t2.to_multiset(),
        0 <= k < s.len(),
        partitioned_at(t1, k),
        partitioned_at(t2, k),
    ensures
        t1[k] == sorted_copy(s)[k],
        t2[k] == sorted_copy(s)[k],
{
    broadcast use vstd::seq_lib::group_to_multiset_ensures;

    assert(s.len() == s.to_multiset().len());
    assert(t1.len() == t1.to_multiset().len());
    assert(t2.len() == t2.to_multiset().len());
    lemma_rank_correct::<T>(s, t1, k);
    lemma_rank_correct::<T>(s, t2, k);
}

/// Stability of re-selection: two sequences with the same elements, both
/// partitioned around the same rank `k`, carry the same value at index `k`,
/// and each side holds the same elements. Re-running selection for `k` on an
/// already-partitioned sequence may therefore reorder each side internally,
/// but cannot change the element at `k` nor move an element across it.
pub proof fn lemma_reselect_same_rank<T: TotalOrder>(s: Seq<T>, t: Seq<T>, k: int)
    requires
        s.to_multiset() == t.to_multiset(),
        0 <= k < s.len(),
        partitioned_at(s, k),
        partitioned_at(t, k),
    ensures
        t.len() == s.len(),
        t[k] == s[k],
        t.subrange(0, k).to_multiset() == s.subrange(0, k).to_multiset(),
        t.subrange(k + 1, t.len() as int).to_multiset() == s.subrange(
            k + 1,
            s.len() as int,
        ).to_multiset(),
{
    broadcast use vstd::seq_lib::group_to_multiset_ensures;

    assert(s.len() == s.to_multiset().len());
    assert(t.len() == t.to_multiset().len());
    lemma_rank_correct::<T>(s, s, k);
    lemma_rank_correct::<T>(s, t, k);
}

} // verus!
