//! The in-place partition primitive and the predicates that describe
//! partitioned sequences.
//!
//! `hoare_partition` is the two-cursor linear pass every selection strategy in
//! this crate ends with: it moves a chosen pivot element to its resting index
//! and leaves everything no greater than it on the left and everything no less
//! than it on the right.

use vstd::prelude::*;
use crate::order::TotalOrder;

verus! {

/// `s` and `t` agree everywhere outside the index range `[lo, hi)`.
pub open spec fn unchanged_outside<T>(s: Seq<T>, t: Seq<T>, lo: int, hi: int) -> bool {
    forall|i: int|
        #![trigger s[i]]
        #![trigger t[i]]
        0 <= i < s.len() && !(lo <= i < hi) ==> s[i] == t[i]
}

/// Within `[lo, hi)`, everything left of `p` is `<=` `s[p]` and everything
/// right of `p` is `>=` `s[p]`.
pub open spec fn range_partitioned_at<T: TotalOrder>(s: Seq<T>, lo: int, hi: int, p: int) -> bool {
    &&& forall|i: int| lo <= i < p ==> (#[trigger] s[i]).le(s[p])
    &&& forall|i: int| p < i < hi ==> s[p].le(#[trigger] s[i])
}

/// The whole sequence is partitioned around index `p`.
pub open spec fn partitioned_at<T: TotalOrder>(s: Seq<T>, p: int) -> bool {
    range_partitioned_at(s, 0, s.len() as int, p)
}

/// What one partition step over the range `[lo, hi)` achieves, relating the
/// sequence before (`pre`) and after (`post`) and the pivot's resting index
/// `r`: nothing outside the range moved, no element appeared or vanished, and
/// the range is partitioned around `r`.
pub open spec fn partition_post<T: TotalOrder>(
    pre: Seq<T>,
    post: Seq<T>,
    lo: int,
    hi: int,
    r: int,
) -> bool {
    &&& post.len() == pre.len()
    &&& 0 <= lo <= r < hi <= pre.len()
    &&& post.to_multiset() == pre.to_multiset()
    &&& unchanged_outside(pre, post, lo, hi)
    &&& range_partitioned_at(post, lo, hi, r)
}

/// Relies on `<[T]>::swap`: exchanges the elements at indices `i` and `j`;
/// the indices are in bounds, so the call cannot panic.
#[verifier::external_body]
pub(crate) fn swap<T>(v: &mut Vec<T>, i: usize, j: usize)
    requires
        i < old(v).len(),
        j < old(v).len(),
    ensures
        final(v)@ == old(v)@.update(i as int, old(v)@[j as int]).update(j as int, old(v)@[i as int]),
{
    v.swap(i, j);
}

/// Swapping two elements of a sequence does not change its multiset.
pub proof fn lemma_swap_multiset<T>(s: Seq<T>, i: int, j: int)
    requires
        0 <= i < s.len(),
        0 <= j < s.len(),
    ensures
        s.update(i, s[j]).update(j, s[i]).to_multiset() == s.to_multiset(),
{
    broadcast use vstd::seq_lib::group_to_multiset_ensures;
    broadcast use vstd::multiset::group_multiset_axioms;

    let t = s.update(i, s[j]).update(j, s[i]);
    assert(s.to_multiset().count(s[i]) > 0) by {
        assert(s.contains(s[i]));
    }
    assert(s.to_multiset().count(s[j]) > 0) by {
        assert(s.contains(s[j]));
    }
    assert(t.to_multiset() =~~= s.to_multiset());
}

/// A permutation that only moves elements inside `[lo, hi)` preserves the
/// multiset of that range.
pub proof fn lemma_range_multiset<T>(pre: Seq<T>, post: Seq<T>, lo: int, hi: int)
    requires
        pre.len() == post.len(),
        0 <= lo <= hi <= pre.len(),
        pre.to_multiset() == post.to_multiset(),
        unchanged_outside(pre, post, lo, hi),
    ensures
        pre.subrange(lo, hi).to_multiset() == post.subrange(lo, hi).to_multiset(),
{
    broadcast use vstd::multiset::group_multiset_axioms;

    let n = pre.len() as int;
    let pa = pre.subrange(0, lo);
    let pm = pre.subrange(lo, hi);
    let pb = pre.subrange(hi, n);
    let qa = post.subrange(0, lo);
    let qm = post.subrange(lo, hi);
    let qb = post.subrange(hi, n);
    assert(pa =~= qa);
    assert(pb =~= qb);
    assert(pre =~= (pa + pm) + pb);
    assert(post =~= (qa + qm) + qb);
    vstd::seq_lib::lemma_multiset_commutative(pa + pm, pb);
    vstd::seq_lib::lemma_multiset_commutative(pa, pm);
    vstd::seq_lib::lemma_multiset_commutative(qa + qm, qb);
    vstd::seq_lib::lemma_multiset_commutative(qa, qm);
    assert forall|x: T| pm.to_multiset().count(x) == qm.to_multiset().count(x) by {
        assert(pre.to_multiset().count(x) == pa.to_multiset().count(x) + pm.to_multiset().count(
            x,
        ) + pb.to_multiset().count(x));
        assert(post.to_multiset().count(x) == qa.to_multiset().count(x) + qm.to_multiset().count(
            x,
        ) + qb.to_multiset().count(x));
    }
    assert(pm.to_multiset() =~= qm.to_multiset());
}

/// After a permutation that only moves elements inside `[lo, hi)`, every
/// value now in the range already stood somewhere in the range before.
pub proof fn lemma_value_in_range<T>(pre: Seq<T>, post: Seq<T>, lo: int, hi: int, j: int)
    requires
        pre.len() == post.len(),
        0 <= lo <= hi <= pre.len(),
        pre.to_multiset() == post.to_multiset(),
        unchanged_outside(pre, post, lo, hi),
        lo <= j < hi,
    ensures
        exists|i: int| lo <= i < hi && pre[i] == post[j],
{
    broadcast use vstd::seq_lib::group_to_multiset_ensures;

    lemma_range_multiset(pre, post, lo, hi);
    let pm = pre.subrange(lo, hi);
    let qm = post.subrange(lo, hi);
    assert(qm[j - lo] == post[j]);
    assert(qm.contains(post[j]));
    assert(pm.to_multiset().count(post[j]) > 0);
    assert(pm.contains(post[j]));
    let i0 = choose|i: int| 0 <= i < pm.len() && pm[i] == post[j];
    assert(pre[lo + i0] == post[j]);
}

/// Narrowing to the left: partitioning `[lo, hi)` around `p` and then
/// partitioning `[lo, p)` around `k` leaves `[lo, hi)` partitioned around
/// `k`.
pub proof fn lemma_narrow_left<T: TotalOrder>(
    pre: Seq<T>,
    mid: Seq<T>,
    post: Seq<T>,
    lo: int,
    hi: int,
    p: int,
    k: int,
)
    requires
        partition_post(pre, mid, lo, hi, p),
        partition_post(mid, post, lo, p, k),
    ensures
        partition_post(pre, post, lo, hi, k),
{
    crate::order::lemma_le_properties::<T>();
    assert forall|i: int| k < i < hi implies post[k].le(#[trigger] post[i]) by {
        if i >= p {
            lemma_value_in_range(mid, post, lo, p, k);
            let j = choose|j: int| lo <= j < p && mid[j] == post[k];
            assert(mid[j].le(mid[p]));
            assert(post[i] == mid[i]);
        }
    }
}

/// Narrowing to the right: partitioning `[lo, hi)` around `p` and then
/// partitioning `[p + 1, hi)` around `k` leaves `[lo, hi)` partitioned
/// around `k`.
pub proof fn lemma_narrow_right<T: TotalOrder>(
    pre: Seq<T>,
    mid: Seq<T>,
    post: Seq<T>,
    lo: int,
    hi: int,
    p: int,
    k: int,
)
    requires
        partition_post(pre, mid, lo, hi, p),
        partition_post(mid, post, p + 1, hi, k),
        lo <= p,
    ensures
        partition_post(pre, post, lo, hi, k),
{
    crate::order::lemma_le_properties::<T>();
    assert forall|i: int| lo <= i < k implies (#[trigger] post[i]).le(post[k]) by {
        if i <= p {
            lemma_value_in_range(mid, post, p + 1, hi, k);
            let j = choose|j: int| p + 1 <= j < hi && mid[j] == post[k];
            assert(mid[p].le(mid[j]));
            assert(post[i] == mid[i]);
        }
    }
}

/// A comparison read straight off the vector: whether `v[i] <= v[j]`.
pub(crate) fn le_at<T: TotalOrder>(v: &Vec<T>, i: usize, j: usize) -> (r: bool)
    requires
        i < v.len(),
        j < v.len(),
    ensures
        r == v@[i as int].le(v@[j as int]),
{
    v[i].le_exec(&v[j])
}

/// Partition the range `[lo, hi)` of `v` around the element at index `p`.
///
/// The element initially at `p` comes to rest at the returned index `r`;
/// everything in the range left of `r` is `<=` it and everything right of `r`
/// is `>=` it. One linear pass of two cursors that walk toward each other,
/// swapping out-of-place pairs.
#[verifier::loop_isolation(false)]
pub fn hoare_partition_range<T: TotalOrder>(
    v: &mut Vec<T>,
    lo: usize,
    hi: usize,
    p: usize,
) -> (r: usize)
    requires
        lo <= p < hi,
        hi <= old(v).len(),
    ensures
        partition_post(old(v)@, final(v)@, lo as int, hi as int, r as int),
        final(v)@[r as int] == old(v)@[p as int],
{
    let ghost s0 = v@;
    swap(v, lo, p);
    proof {
        lemma_swap_multiset(s0, lo as int, p as int);
    }
    let mut a: usize = lo + 1;
    let mut b: usize = hi - 1;
    while a <= b
        invariant
            lo < a <= hi,
            lo <= b < hi,
            a <= b + 2,
            v@.len() == s0.len(),
            v@.to_multiset() == s0.to_multiset(),
            unchanged_outside(s0, v@, lo as int, hi as int),
            v@[lo as int] == s0[p as int],
            forall|i: int| lo < i < a ==> (#[trigger] v@[i]).le(v@[lo as int]),
            forall|i: int| b < i < hi ==> v@[lo as int].le(#[trigger] v@[i]),
        decreases b + 2 - a,
    {
        if !le_at(v, lo, a) {
            // v[a] is strictly below the pivot: it belongs on the left.
            proof {
                T::lemma_total(v@[a as int], v@[lo as int]);
            }
            a += 1;
        } else if !le_at(v, b, lo) {
            // v[b] is strictly above the pivot: it belongs on the right.
            proof {
                T::lemma_total(v@[b as int], v@[lo as int]);
            }
            b -= 1;
        } else {
            // v[a] >= pivot and v[b] <= pivot: swap them into place.
            let ghost sw = v@;
            swap(v, a, b);
            proof {
                lemma_swap_multiset(sw, a as int, b as int);
            }
            a += 1;
            b -= 1;
        }
    }
    a -= 1;
    let ghost s2 = v@;
    swap(v, lo, a);
    proof {
        lemma_swap_multiset(s2, lo as int, a as int);
    }
    a
}

/// Partition all of `arr` around the element at index `pivot`; returns the
/// pivot's resting index.
pub fn hoare_partition<T: TotalOrder>(arr: &mut Vec<T>, pivot: usize) -> (r: usize)
    requires
        pivot < old(arr).len(),
    ensures
        partition_post(old(arr)@, final(arr)@, 0, old(arr)@.len() as int, r as int),
        final(arr)@[r as int] == old(arr)@[pivot as int],
{
    let len: usize = arr.len();
    hoare_partition_range(arr, 0, len, pivot)
}

} // verus!
