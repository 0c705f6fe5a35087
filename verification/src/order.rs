//! The total order that element types must provide.
//!
//! Every algorithm in this crate rearranges elements solely by comparing them,
//! so the element type carries a specification-level relation `le` together
//! with proofs that it is a total order and an executable test that agrees
//! with it.

use vstd::prelude::*;
use vstd::relations::total_ordering;

verus! {

/// A type with a decidable total order.
///
/// `le` is the specification-level "less than or equal" relation; the proof
/// methods oblige implementors to show it really is a total order, and
/// `le_exec` is the runtime comparison, which must agree with `le`.
pub trait TotalOrder: Sized {
    /// The "less than or equal" relation the algorithms are specified against.
    spec fn le(self, other: Self) -> bool;

    /// `le` is transitive.
    proof fn lemma_transitive(x: Self, y: Self, z: Self)
        requires
            Self::le(x, y),
            Self::le(y, z),
        ensures
            Self::le(x, z),
    ;

    /// `le` is antisymmetric: mutually comparable values are equal.
    proof fn lemma_antisymmetric(x: Self, y: Self)
        requires
            Self::le(x, y),
            Self::le(y, x),
        ensures
            x == y,
    ;

    /// `le` is total: any two values compare one way or the other.
    proof fn lemma_total(x: Self, y: Self)
        ensures
            Self::le(x, y) || Self::le(y, x),
    ;

    /// Runtime comparison, faithful to `le`.
    fn le_exec(&self, other: &Self) -> (r: bool)
        ensures
            r == self.le(*other),
    ;
}

/// The order of a `TotalOrder` type as a first-class relation, in the shape
/// that `vstd`'s sorting lemmas expect.
pub open spec fn le_fn<T: TotalOrder>() -> spec_fn(T, T) -> bool {
    |x: T, y: T| x.le(y)
}

/// `le_fn` is a total ordering in the sense of `vstd::relations`.
pub proof fn lemma_le_fn_total_ordering<T: TotalOrder>()
    ensures
        total_ordering(le_fn::<T>()),
{
    let r = le_fn::<T>();
    assert forall|x: T| #[trigger] r(x, x) by {
        T::lemma_total(x, x);
    }
    assert forall|x: T, y: T| #[trigger] r(x, y) && #[trigger] r(y, x) implies x == y by {
        T::lemma_antisymmetric(x, y);
    }
    assert forall|x: T, y: T, z: T| #[trigger] r(x, y) && #[trigger] r(y, z) implies r(x, z) by {
        T::lemma_transitive(x, y, z);
    }
    assert forall|x: T, y: T| #[trigger] r(x, y) || #[trigger] r(y, x) by {
        T::lemma_total(x, y);
    }
}

/// The total-order laws of `le`, stated as quantified facts so that a proof
/// may bring them into scope once instead of invoking the trait lemmas pair
/// by pair.
pub proof fn lemma_le_properties<T: TotalOrder>()
    ensures
        forall|x: T, y: T| #![trigger x.le(y)] x.le(y) || y.le(x),
        forall|x: T, y: T, z: T|
            #![trigger x.le(y), y.le(z)]
            x.le(y) && y.le(z) ==> x.le(z),
        forall|x: T, y: T| #![trigger x.le(y), y.le(x)] x.le(y) && y.le(x) ==> x == y,
{
    assert forall|x: T, y: T| #![trigger x.le(y)] x.le(y) || y.le(x) by {
        T::lemma_total(x, y);
    }
    assert forall|x: T, y: T, z: T|
        #![trigger x.le(y), y.le(z)]
        x.le(y) && y.le(z) implies x.le(z) by {
        T::lemma_transitive(x, y, z);
    }
    assert forall|x: T, y: T| #![trigger x.le(y), y.le(x)] x.le(y) && y.le(x) implies x == y by {
        T::lemma_antisymmetric(x, y);
    }
}

impl TotalOrder for u8 {
    open spec fn le(self, other: Self) -> bool {
        self <= other
    }

    proof fn lemma_transitive(x: Self, y: Self, z: Self) {
    }

    proof fn lemma_antisymmetric(x: Self, y: Self) {
    }

    proof fn lemma_total(x: Self, y: Self) {
    }

    fn le_exec(&self, other: &Self) -> (r: bool) {
        *self <= *other
    }
}

impl TotalOrder for u64 {
    open spec fn le(self, other: Self) -> bool {
        self <= other
    }

    proof fn lemma_transitive(x: Self, y: Self, z: Self) {
    }

    proof fn lemma_antisymmetric(x: Self, y: Self) {
    }

    proof fn lemma_total(x: Self, y: Self) {
    }

    fn le_exec(&self, other: &Self) -> (r: bool) {
        *self <= *other
    }
}

impl TotalOrder for usize {
    open spec fn le(self, other: Self) -> bool {
        self <= other
    }

    proof fn lemma_transitive(x: Self, y: Self, z: Self) {
    }

    proof fn lemma_antisymmetric(x: Self, y: Self) {
    }

    proof fn lemma_total(x: Self, y: Self) {
    }

    fn le_exec(&self, other: &Self) -> (r: bool) {
        *self <= *other
    }
}

impl TotalOrder for i32 {
    open spec fn le(self, other: Self) -> bool {
        self <= other
    }

    proof fn lemma_transitive(x: Self, y: Self, z: Self) {
    }

    proof fn lemma_antisymmetric(x: Self, y: Self) {
    }

    proof fn lemma_total(x: Self, y: Self) {
    }

    fn le_exec(&self, other: &Self) -> (r: bool) {
        *self <= *other
    }
}

impl TotalOrder for i64 {
    open spec fn le(self, other: Self) -> bool {
        self <= other
    }

    proof fn lemma_transitive(x: Self, y: Self, z: Self) {
    }

    proof fn lemma_antisymmetric(x: Self, y: Self) {
    }

    proof fn lemma_total(x: Self, y: Self) {
    }

    fn le_exec(&self, other: &Self) -> (r: bool) {
        *self <= *other
    }
}

} // verus!
