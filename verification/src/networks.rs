//! Fixed-size sorting and median networks.
//!
//! Each routine reorders a window of exactly three or five elements, starting
//! at a caller-supplied base index, with a fixed pattern of
//! compare-and-swap operations (or, for `sort3` and `partition5`, a fixed
//! comparison tree). They are the base cases of the median-of-medians pivot
//! strategies: `sort3` fully sorts its window, while the five-element
//! networks guarantee at least that the window's median comes to rest at the
//! middle slot with the two smaller elements before it and the two larger
//! after it.

use vstd::prelude::*;
use crate::order::TotalOrder;
use crate::order::lemma_le_properties;
use crate::partition::le_at;
use crate::partition::lemma_swap_multiset;
use crate::partition::swap;
use crate::partition::unchanged_outside;

verus! {

/// The window `[base, base + n)` is sorted.
pub open spec fn window_sorted<T: TotalOrder>(s: Seq<T>, base: int, n: int) -> bool {
    forall|i: int, j: int| base <= i < j < base + n ==> (#[trigger] s[i]).le(#[trigger] s[j])
}

/// The median of the window `[base, base + 5)` rests at `base + 2`: the two
/// elements before it are `<=` it and the two after it are `>=` it.
pub open spec fn window_median_at_middle<T: TotalOrder>(s: Seq<T>, base: int) -> bool {
    &&& s[base].le(s[base + 2])
    &&& s[base + 1].le(s[base + 2])
    &&& s[base + 2].le(s[base + 3])
    &&& s[base + 2].le(s[base + 4])
}

/// What every window routine preserves: the length, the multiset of
/// elements, and everything outside the window.
pub open spec fn window_frame<T>(pre: Seq<T>, post: Seq<T>, base: int, n: int) -> bool {
    &&& post.len() == pre.len()
    &&& post.to_multiset() == pre.to_multiset()
    &&& unchanged_outside(pre, post, base, base + n)
}

/// One compare-and-swap: afterwards `v[i] <= v[j]`, either because the pair
/// was already in order or because the two elements were exchanged.
fn cswap<T: TotalOrder>(v: &mut Vec<T>, i: usize, j: usize)
    requires
        i < j,
        j < old(v).len(),
    ensures
        final(v)@.len() == old(v)@.len(),
        final(v)@.to_multiset() == old(v)@.to_multiset(),
        final(v)@[i as int].le(final(v)@[j as int]),
        final(v)@ == old(v)@ || final(v)@ == old(v)@.update(i as int, old(v)@[j as int]).update(
            j as int,
            old(v)@[i as int],
        ),
        forall|k: int| 0 <= k < old(v)@.len() && k != i && k != j ==> final(v)@[k] == old(v)@[k],
{
    if !le_at(v, i, j) {
        proof {
            T::lemma_total(v@[i as int], v@[j as int]);
            lemma_swap_multiset(v@, i as int, j as int);
        }
        swap(v, i, j);
    }
}

/// Sort the three elements at `[base, base + 3)` in place.
///
/// A comparison tree of at most three comparisons and two swaps.
pub fn sort3<T: TotalOrder>(v: &mut Vec<T>, base: usize)
    requires
        base + 3 <= old(v).len(),
    ensures
        window_frame(old(v)@, final(v)@, base as int, 3),
        window_sorted(final(v)@, base as int, 3),
{
    proof {
        lemma_le_properties::<T>();
    }
    let ghost s0 = v@;
    if le_at(v, base, base + 1) {
        if le_at(v, base + 1, base + 2) {
            // already sorted
        } else {
            if le_at(v, base, base + 2) {
                proof {
                    lemma_swap_multiset(v@, base + 1, base + 2);
                }
                swap(v, base + 1, base + 2);
            } else {
                proof {
                    lemma_swap_multiset(v@, base as int, base + 1);
                }
                swap(v, base, base + 1);
                proof {
                    lemma_swap_multiset(v@, base as int, base + 2);
                }
                swap(v, base, base + 2);
            }
        }
    } else {
        if le_at(v, base, base + 2) {
            proof {
                lemma_swap_multiset(v@, base as int, base + 1);
            }
            swap(v, base, base + 1);
        } else {
            if !le_at(v, base + 2, base + 1) {
                proof {
                    lemma_swap_multiset(v@, base as int, base + 1);
                }
                swap(v, base, base + 1);
                proof {
                    lemma_swap_multiset(v@, base + 1, base + 2);
                }
                swap(v, base + 1, base + 2);
            } else {
                proof {
                    lemma_swap_multiset(v@, base as int, base + 2);
                }
                swap(v, base, base + 2);
            }
        }
    }
}

/// Sort the five elements at `[base, base + 5)` in place.
///
/// A nine-operation sorting network.
pub fn sort5<T: TotalOrder>(v: &mut Vec<T>, base: usize)
    requires
        base + 5 <= old(v).len(),
    ensures
        window_frame(old(v)@, final(v)@, base as int, 5),
        window_sorted(final(v)@, base as int, 5),
{
    proof {
        lemma_le_properties::<T>();
    }
    cswap(v, base + 1, base + 2);
    cswap(v, base + 3, base + 4);
    cswap(v, base + 1, base + 3);
    cswap(v, base, base + 2);
    cswap(v, base + 2, base + 4);
    cswap(v, base, base + 3);
    cswap(v, base, base + 1);
    cswap(v, base + 2, base + 3);
    cswap(v, base + 1, base + 2);
}

/// Move the median of the five elements at `[base, base + 5)` to
/// `base + 2` and partition the other four around it.
///
/// A seven-operation network: a five-element sorting network with the
/// operations that only order the outer pairs removed.
pub fn partition5_2<T: TotalOrder>(v: &mut Vec<T>, base: usize)
    requires
        base + 5 <= old(v).len(),
    ensures
        window_frame(old(v)@, final(v)@, base as int, 5),
        window_median_at_middle(final(v)@, base as int),
{
    proof {
        lemma_le_properties::<T>();
    }
    cswap(v, base, base + 1);
    cswap(v, base + 3, base + 4);
    cswap(v, base, base + 3);
    cswap(v, base + 1, base + 4);
    cswap(v, base + 2, base + 3);
    cswap(v, base + 1, base + 2);
    cswap(v, base + 2, base + 3);
}

/// Move the median of the five elements at `[base, base + 5)` to
/// `base + 2` and partition the other four around it.
///
/// A comparison tree of at most six comparisons and seven swaps.
#[verifier::rlimit(60)]
pub fn partition5<T: TotalOrder>(v: &mut Vec<T>, base: usize)
    requires
        base + 5 <= old(v).len(),
    ensures
        window_frame(old(v)@, final(v)@, base as int, 5),
        window_median_at_middle(final(v)@, base as int),
{
    proof {
        lemma_le_properties::<T>();
    }
    let a = base;
    let b = base + 1;
    let c = base + 2;
    let d = base + 3;
    let e = base + 4;
    if !le_at(v, a, c) {
        proof {
            lemma_swap_multiset(v@, a as int, c as int);
        }
        swap(v, a, c);
    }
    if !le_at(v, b, d) {
        proof {
            lemma_swap_multiset(v@, b as int, d as int);
        }
        swap(v, b, d);
    }
    if !le_at(v, c, d) {
        proof {
            lemma_swap_multiset(v@, c as int, d as int);
        }
        swap(v, c, d);
        proof {
            lemma_swap_multiset(v@, a as int, b as int);
        }
        swap(v, a, b);
    }
    if !le_at(v, b, e) {
        proof {
            lemma_swap_multiset(v@, b as int, e as int);
        }
        swap(v, b, e);
    }
    if !le_at(v, c, e) {
        proof {
            lemma_swap_multiset(v@, c as int, e as int);
        }
        swap(v, c, e);
        if !le_at(v, a, c) {
            proof {
                lemma_swap_multiset(v@, a as int, c as int);
            }
            swap(v, a, c);
        }
    } else {
        if !le_at(v, b, c) {
            proof {
                lemma_swap_multiset(v@, b as int, c as int);
            }
            swap(v, b, c);
        }
    }
}

} // verus!
