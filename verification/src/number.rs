//! The numeric types that measurements are made in.

use vstd::prelude::*;

verus! {

/// A numeric type that measurements and their aggregates are made in.
/// Aggregates add up with wrap-around, as atomic counters do.
pub trait Number: Copy + Sized {
    /// The default value, from which sums start.
    spec fn spec_zero() -> Self;

    /// The sum of two values, wrapping around on overflow.
    spec fn spec_add(a: Self, b: Self) -> Self;

    /// Wrapping addition is commutative.
    proof fn lemma_add_commutative(a: Self, b: Self)
        ensures
            Self::spec_add(a, b) == Self::spec_add(b, a),
    ;

    /// Wrapping addition is associative.
    proof fn lemma_add_associative(a: Self, b: Self, c: Self)
        ensures
            Self::spec_add(Self::spec_add(a, b), c) == Self::spec_add(a, Self::spec_add(b, c)),
    ;

    /// Adding the default value changes nothing.
    proof fn lemma_add_zero(a: Self)
        ensures
            Self::spec_add(a, Self::spec_zero()) == a,
    ;

    /// The default value.
    fn zero() -> (r: Self)
        ensures
            r == Self::spec_zero(),
    ;

    /// The sum of two values, wrapping around on overflow.
    fn add_wrapping(self, other: Self) -> (r: Self)
        ensures
            r == Self::spec_add(self, other),
    ;
}

impl Number for u64 {
    open spec fn spec_zero() -> u64 {
        0
    }

    open spec fn spec_add(a: u64, b: u64) -> u64 {
        vstd::wrapping::u64_specs::wrapping_add(a, b)
    }

    proof fn lemma_add_commutative(a: u64, b: u64) {
    }

    proof fn lemma_add_associative(a: u64, b: u64, c: u64) {
    }

    proof fn lemma_add_zero(a: u64) {
    }

    fn zero() -> (r: u64) {
        0
    }

    fn add_wrapping(self, other: u64) -> (r: u64) {
        self.wrapping_add(other)
    }
}

impl Number for i64 {
    open spec fn spec_zero() -> i64 {
        0
    }

    open spec fn spec_add(a: i64, b: i64) -> i64 {
        vstd::wrapping::i64_specs::wrapping_add(a, b)
    }

    proof fn lemma_add_commutative(a: i64, b: i64) {
    }

    proof fn lemma_add_associative(a: i64, b: i64, c: i64) {
    }

    proof fn lemma_add_zero(a: i64) {
    }

    fn zero() -> (r: i64) {
        0
    }

    fn add_wrapping(self, other: i64) -> (r: i64) {
        self.wrapping_add(other)
    }
}

} // verus!
