//! Quickselect: the selection driver and the pivot-selection strategies.
//!
//! The driver repeatedly asks a strategy to choose a pivot in the current
//! range and partition the range around it, then narrows the range to the
//! side that still contains the target rank. The two strategies are
//! median-of-medians over windows of five and a cheaper double-decimation
//! variant over windows of three; both recursively use the driver on their
//! shrinking prefix of window medians.

use vstd::prelude::*;
use crate::laws::lemma_rank_correct;
use crate::laws::sorted_copy;
use crate::networks::partition5;
use crate::networks::sort3;
use crate::order::TotalOrder;
use crate::partition::hoare_partition_range;
use crate::partition::lemma_narrow_left;
use crate::partition::lemma_narrow_right;
use crate::partition::lemma_swap_multiset;
use crate::partition::partition_post;
use crate::partition::partitioned_at;
use crate::partition::swap;
use crate::partition::unchanged_outside;

pub use crate::partition::hoare_partition;

verus! {

/// A pivot-selection strategy: choose a pivot within the range `[lo, hi)` of
/// `v`, partition that range around it in place, and return its resting
/// index. Any implementation is correct for the driver; implementations
/// differ only in how good a pivot they find.
pub trait PartitionStrategy<T: TotalOrder> {
    /// Partition `[lo, hi)` of `v` around a pivot of this strategy's
    /// choosing; the returned index is where that pivot came to rest.
    fn partition_range(&self, v: &mut Vec<T>, lo: usize, hi: usize) -> (r: usize)
        requires
            lo < hi,
            hi <= old(v).len(),
        ensures
            partition_post(old(v)@, final(v)@, lo as int, hi as int, r as int),
    ;
}

/// Find the `k`-th smallest element in `a`, place it at `a[k]` and partition
/// `a` around that element (everything `<=` it to the left, everything `>=`
/// it to the right).
///
///  - `partition` is the pivot-selection strategy the driver consults.
///  - `a` is the sequence, rearranged in place.
///  - `k` is the rank of the desired element.
pub fn quickselect<T: TotalOrder, P: PartitionStrategy<T>>(
    partition: &P,
    a: &mut Vec<T>,
    k: usize,
)
    requires
        k < old(a).len(),
    ensures
        final(a)@.len() == old(a)@.len(),
        final(a)@.to_multiset() == old(a)@.to_multiset(),
        partitioned_at(final(a)@, k as int),
        final(a)@[k as int] == sorted_copy(old(a)@)[k as int],
{
    let ghost pre = a@;
    let len: usize = a.len();
    quickselect_range(partition, a, 0, len, k);
    proof {
        lemma_rank_correct::<T>(pre, a@, k as int);
    }
}

/// The driver proper, on the range `[lo, hi)`: narrow toward the rank `k`
/// until a strategy-chosen pivot comes to rest exactly at `k`.
pub fn quickselect_range<T: TotalOrder, P: PartitionStrategy<T>>(
    partition: &P,
    v: &mut Vec<T>,
    lo: usize,
    hi: usize,
    k: usize,
)
    requires
        lo <= k < hi,
        hi <= old(v).len(),
    ensures
        partition_post(old(v)@, final(v)@, lo as int, hi as int, k as int),
    decreases hi - lo,
{
    let ghost pre = v@;
    let p = partition.partition_range(v, lo, hi);
    if p == k {
        return;
    }
    let ghost mid = v@;
    if p > k {
        quickselect_range(partition, v, lo, p, k);
        proof {
            lemma_narrow_left::<T>(pre, mid, v@, lo as int, hi as int, p as int, k as int);
        }
    } else {
        quickselect_range(partition, v, p + 1, hi, k);
        proof {
            lemma_narrow_right::<T>(pre, mid, v@, lo as int, hi as int, p as int, k as int);
        }
    }
}

/// Median-of-medians on groups of 3, on the range `[lo, hi)`.
///
/// Two decimation passes: sort consecutive windows of three and compact
/// their middles into a prefix, repeat on that prefix, then select the
/// median of the twice-decimated prefix and partition the whole range
/// around it. Ranges shorter than 9 fall back to partitioning around the
/// middle index, as the contract states.
#[verifier::loop_isolation(false)]
pub fn repeated_step3_range<T: TotalOrder>(v: &mut Vec<T>, lo: usize, hi: usize) -> (r: usize)
    requires
        lo < hi,
        hi <= old(v).len(),
    ensures
        partition_post(old(v)@, final(v)@, lo as int, hi as int, r as int),
        hi - lo < 9 ==> final(v)@[r as int] == old(v)@[lo + (hi - lo) / 2],
    decreases hi - lo, 0int,
{
    let ghost s0 = v@;
    let l: usize = hi - lo;
    if l < 9 {
        return hoare_partition_range(v, lo, hi, lo + l / 2);
    }
    let mut i: usize = lo;
    let mut j: usize = lo;
    while i < hi - 2
        invariant
            lo <= j <= i,
            i <= hi,
            i - lo == 3 * (j - lo),
            v@.len() == s0.len(),
            v@.to_multiset() == s0.to_multiset(),
            unchanged_outside(s0, v@, lo as int, hi as int),
        decreases hi - i,
    {
        sort3(v, i);
        let ghost sw = v@;
        swap(v, i + 1, j);
        proof {
            lemma_swap_multiset(sw, i + 1, j as int);
        }
        i += 3;
        j += 1;
    }
    let mut i2: usize = lo;
    let mut m: usize = lo;
    while i2 < j - 2
        invariant
            lo <= m <= i2,
            i2 <= j,
            i2 - lo == 3 * (m - lo),
            v@.len() == s0.len(),
            v@.to_multiset() == s0.to_multiset(),
            unchanged_outside(s0, v@, lo as int, hi as int),
        decreases j - i2,
    {
        sort3(v, i2);
        let ghost sw = v@;
        swap(v, i2 + 1, m);
        proof {
            lemma_swap_multiset(sw, i2 + 1, m as int);
        }
        i2 += 3;
        m += 1;
    }
    let mid: usize = lo + (m - lo) / 2;
    select_step3(v, lo, m, mid);
    let r = hoare_partition_range(v, lo, hi, mid);
    r
}

/// The driver specialized to the step-3 strategy, used for the strategy's
/// own recursion on its prefix of medians.
fn select_step3<T: TotalOrder>(v: &mut Vec<T>, lo: usize, hi: usize, k: usize)
    requires
        lo <= k < hi,
        hi <= old(v).len(),
    ensures
        partition_post(old(v)@, final(v)@, lo as int, hi as int, k as int),
    decreases hi - lo, 1int,
{
    let ghost pre = v@;
    let p = repeated_step3_range(v, lo, hi);
    if p == k {
        return;
    }
    let ghost mid = v@;
    if p > k {
        select_step3(v, lo, p, k);
        proof {
            lemma_narrow_left::<T>(pre, mid, v@, lo as int, hi as int, p as int, k as int);
        }
    } else {
        select_step3(v, p + 1, hi, k);
        proof {
            lemma_narrow_right::<T>(pre, mid, v@, lo as int, hi as int, p as int, k as int);
        }
    }
}

/// Median-of-medians on groups of 5, on the range `[lo, hi)`.
///
/// Walk the range in consecutive windows of five, move each window's median
/// to a compacted prefix, select the median of that prefix, and partition
/// the whole range around it. For large ranges the pivot this procedure
/// chooses classically falls between the 30th and 70th percentile of the
/// range, which is what makes selection with this strategy linear in the
/// worst case; that percentile bound is a performance property and is not
/// part of the stated contract. Ranges shorter than 5 fall back to
/// partitioning around the middle index, as the contract states.
#[verifier::loop_isolation(false)]
pub fn median_of_medians_range<T: TotalOrder>(v: &mut Vec<T>, lo: usize, hi: usize) -> (r: usize)
    requires
        lo < hi,
        hi <= old(v).len(),
    ensures
        partition_post(old(v)@, final(v)@, lo as int, hi as int, r as int),
        hi - lo < 5 ==> final(v)@[r as int] == old(v)@[lo + (hi - lo) / 2],
    decreases hi - lo, 0int,
{
    let ghost s0 = v@;
    let l: usize = hi - lo;
    if l < 5 {
        return hoare_partition_range(v, lo, hi, lo + l / 2);
    }
    let mut i: usize = lo;
    let mut j: usize = lo;
    while i < hi - 4
        invariant
            lo <= j <= i,
            i <= hi,
            i - lo == 5 * (j - lo),
            v@.len() == s0.len(),
            v@.to_multiset() == s0.to_multiset(),
            unchanged_outside(s0, v@, lo as int, hi as int),
        decreases hi - i,
    {
        partition5(v, i);
        let ghost sw = v@;
        swap(v, i + 2, j);
        proof {
            lemma_swap_multiset(sw, i + 2, j as int);
        }
        i += 5;
        j += 1;
    }
    let mid: usize = lo + (j - lo) / 2;
    select_mom5(v, lo, j, mid);
    let r = hoare_partition_range(v, lo, hi, mid);
    r
}

/// The driver specialized to the median-of-medians-of-5 strategy, used for
/// the strategy's own recursion on its prefix of medians.
fn select_mom5<T: TotalOrder>(v: &mut Vec<T>, lo: usize, hi: usize, k: usize)
    requires
        lo <= k < hi,
        hi <= old(v).len(),
    ensures
        partition_post(old(v)@, final(v)@, lo as int, hi as int, k as int),
    decreases hi - lo, 1int,
{
    let ghost pre = v@;
    let p = median_of_medians_range(v, lo, hi);
    if p == k {
        return;
    }
    let ghost mid = v@;
    if p > k {
        select_mom5(v, lo, p, k);
        proof {
            lemma_narrow_left::<T>(pre, mid, v@, lo as int, hi as int, p as int, k as int);
        }
    } else {
        select_mom5(v, p + 1, hi, k);
        proof {
            lemma_narrow_right::<T>(pre, mid, v@, lo as int, hi as int, p as int, k as int);
        }
    }
}

/// Median-of-medians on groups of 3: choose a pivot for the whole of `a`,
/// partition around it, and return its resting index.
pub fn repeated_step3<T: TotalOrder>(a: &mut Vec<T>) -> (r: usize)
    requires
        old(a).len() > 0,
    ensures
        partition_post(old(a)@, final(a)@, 0, old(a)@.len() as int, r as int),
        old(a)@.len() < 9 ==> final(a)@[r as int] == old(a)@[old(a)@.len() as int / 2],
{
    let len: usize = a.len();
    repeated_step3_range(a, 0, len)
}

/// Median-of-medians on groups of 5: choose a pivot for the whole of `a`,
/// partition around it, and return its resting index.
///
/// For large inputs the chosen pivot classically lands between the 30th and
/// 70th percentile — a useful pivot even though it is not the true median.
/// That bound is a performance property and is not part of the stated
/// contract; for inputs shorter than 5 the contract does state the pivot:
/// the element initially at the middle index.
pub fn median_of_medians<T: TotalOrder>(a: &mut Vec<T>) -> (r: usize)
    requires
        old(a).len() > 0,
    ensures
        partition_post(old(a)@, final(a)@, 0, old(a)@.len() as int, r as int),
        old(a)@.len() < 5 ==> final(a)@[r as int] == old(a)@[old(a)@.len() as int / 2],
{
    let len: usize = a.len();
    median_of_medians_range(a, 0, len)
}

/// The step-3 strategy as a value for the generic driver.
pub struct RepeatedStep3;

impl<T: TotalOrder> PartitionStrategy<T> for RepeatedStep3 {
    fn partition_range(&self, v: &mut Vec<T>, lo: usize, hi: usize) -> (r: usize) {
        repeated_step3_range(v, lo, hi)
    }
}

/// The median-of-medians-of-5 strategy as a value for the generic driver.
pub struct MedianOfMedians;

impl<T: TotalOrder> PartitionStrategy<T> for MedianOfMedians {
    fn partition_range(&self, v: &mut Vec<T>, lo: usize, hi: usize) -> (r: usize) {
        median_of_medians_range(v, lo, hi)
    }
}

} // verus!
