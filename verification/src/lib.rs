//! Algorithms to find the k-th order element of a sequence.
//!
//! The k-th order element is the element that would sit at index `k` if the
//! sequence were sorted. Finding it — and partitioning the sequence around
//! it in place — is generally cheaper than sorting. Finding the median is
//! the special case `k = len / 2`.
//!
//! The heart of the crate is [`quickselect::quickselect`], a selection
//! driver generic over a pivot-selection strategy, together with the
//! [`partition::hoare_partition`] primitive and two median-of-medians
//! strategies that feed the driver good pivots. The
//! [`SliceExtKth::partition_by_kth`] facade wires the driver to the
//! repeated-step-3 strategy.
//!
//! Every routine is specified against the element type's total order (the
//! [`order::TotalOrder`] trait) and proved to leave the multiset of
//! elements unchanged, to partition around the requested rank, and to place
//! at that rank exactly the element a full sort would put there.

use vstd::prelude::*;

pub mod laws;
pub mod networks;
pub mod order;
pub mod partition;
pub mod quickselect;

use crate::laws::sorted_copy;
use crate::order::TotalOrder;
use crate::partition::partitioned_at;
use crate::quickselect::MedianOfMedians;
use crate::quickselect::RepeatedStep3;

verus! {

/// K-th order element operations on a sequence of totally ordered elements.
pub trait SliceExtKth<T: TotalOrder> {
    /// The elements as a mathematical sequence.
    spec fn elems(&self) -> Seq<T>;

    /// Re-order the sequence so that the element with the order given by
    /// `pivot_order` (i.e. the element that would sit at index
    /// `pivot_order` if the sequence were sorted) has all elements no
    /// larger than it before it, and all elements no smaller than it after
    /// it.
    ///
    /// The k-th element can then be read from `self[pivot_order]`, if
    /// desired.
    fn partition_by_kth(&mut self, pivot_order: usize)
        requires
            pivot_order < old(self).elems().len(),
        ensures
            final(self).elems().len() == old(self).elems().len(),
            final(self).elems().to_multiset() == old(self).elems().to_multiset(),
            partitioned_at(final(self).elems(), pivot_order as int),
            final(self).elems()[pivot_order as int] == sorted_copy(old(self).elems())[
                pivot_order as int],
    ;
}

impl<T: TotalOrder> SliceExtKth<T> for Vec<T> {
    open spec fn elems(&self) -> Seq<T> {
        self@
    }

    fn partition_by_kth(&mut self, pivot_order: usize) {
        crate::quickselect::quickselect(&RepeatedStep3, self, pivot_order);
    }
}

/// Place the `k`-th order element of `array` at index `k` and partition the
/// array around it, with the median-of-medians-of-5 pivot strategy, whose
/// pivot-quality guarantee makes the selection linear-time in the worst
/// case.
pub fn select<T: TotalOrder>(array: &mut Vec<T>, k: usize)
    requires
        k < old(array).len(),
    ensures
        final(array)@.len() == old(array)@.len(),
        final(array)@.to_multiset() == old(array)@.to_multiset(),
        partitioned_at(final(array)@, k as int),
        final(array)@[k as int] == sorted_copy(old(array)@)[k as int],
{
    crate::quickselect::quickselect(&MedianOfMedians, array, k);
}

/// Place the `k`-th smallest element of `data` — with `k` counted from one,
/// so `k == 1` asks for the minimum — at index `k - 1`, partition the
/// sequence around it, and return that resting index.
pub fn kth<T: TotalOrder>(data: &mut Vec<T>, k: usize) -> (r: usize)
    requires
        1 <= k <= old(data).len(),
    ensures
        r == k - 1,
        final(data)@.len() == old(data)@.len(),
        final(data)@.to_multiset() == old(data)@.to_multiset(),
        partitioned_at(final(data)@, r as int),
        final(data)@[r as int] == sorted_copy(old(data)@)[r as int],
{
    let r: usize = k - 1;
    crate::quickselect::quickselect(&RepeatedStep3, data, r);
    r
}

/// Ceiling division: the least `r` with `r * d >= n` (and `0` for `n == 0`,
/// whatever `d`).
pub fn ceil_div(n: usize, d: usize) -> (r: usize)
    requires
        d > 0 || n == 0,
    ensures
        n == 0 ==> r == 0,
        d > 0 ==> r == ((n + d - 1) as int) / (d as int),
        n > 0 ==> (r - 1) * d < n <= r * d,
{
    if n != 0 {
        let quo: usize = (n - 1) / d;
        proof {
            vstd::arithmetic::div_mod::lemma_div_nonincreasing((n - 1) as int, d as int);
            vstd::arithmetic::div_mod::lemma_div_plus_one((n - 1) as int, d as int);
            vstd::arithmetic::div_mod::lemma_fundamental_div_mod((n - 1) as int, d as int);
            vstd::arithmetic::div_mod::lemma_mod_bound((n - 1) as int, d as int);
            assert((quo as int) * (d as int) < n <= ((quo as int) + 1) * (d as int))
                by (nonlinear_arith)
                requires
                    (n - 1) as int == (d as int) * (quo as int) + ((n - 1) as int) % (d as int),
                    0 <= ((n - 1) as int) % (d as int) < d as int,
                    n > 0,
            {}
        }
        1 + quo
    } else {
        proof {
            if d > 0 {
                vstd::arithmetic::div_mod::lemma_basic_div(d - 1, d as int);
            }
        }
        0
    }
}

} // verus!
