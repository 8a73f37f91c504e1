//! The numbers a chain computes with.

use vstd::prelude::*;

verus! {

/// A number type with the arithmetic that the simulation needs.
///
/// Each operation comes as a pair: a specification function that says what
/// the result is, and an executable function that computes exactly that. The
/// simulation's contracts are stated over the specification functions alone,
/// so they hold of every implementation, whatever its rounding.
///
/// An implementation for a type that Verus cannot reason about, such as a
/// machine float, has to make each pair agree by hand: nothing checks it.
pub trait Scalar: Copy {
    /// The additive identity.
    spec fn nil() -> Self;

    /// The whole number `n` as a scalar.
    spec fn count(n: u16) -> Self;

    /// The whole number `v` as a scalar.
    spec fn signed(v: isize) -> Self;

    /// The whole number `v` as a scalar.
    spec fn length(v: usize) -> Self;

    /// The scalar's approximation of the circle constant.
    spec fn half_turn() -> Self;

    /// `self + other`.
    spec fn sum(self, other: Self) -> Self;

    /// `self - other`.
    spec fn difference(self, other: Self) -> Self;

    /// `self * other`.
    spec fn product(self, other: Self) -> Self;

    /// `self / other`.
    spec fn quotient(self, other: Self) -> Self;

    /// The non-negative square root of `self`.
    spec fn root(self) -> Self;

    /// The sine of `self`, an angle in radians.
    spec fn sine(self) -> Self;

    /// The whole number nearest to `self`, kept within the range of `u16`.
    spec fn pixel(self) -> u16;

    fn zero() -> (r: Self)
        ensures
            r == Self::nil(),
    ;

    fn from_count(n: u16) -> (r: Self)
        ensures
            r == Self::count(n),
    ;

    fn from_isize(v: isize) -> (r: Self)
        ensures
            r == Self::signed(v),
    ;

    fn from_usize(v: usize) -> (r: Self)
        ensures
            r == Self::length(v),
    ;

    fn pi() -> (r: Self)
        ensures
            r == Self::half_turn(),
    ;

    fn add(self, other: Self) -> (r: Self)
        ensures
            r == self.sum(other),
    ;

    fn sub(self, other: Self) -> (r: Self)
        ensures
            r == self.difference(other),
    ;

    fn mul(self, other: Self) -> (r: Self)
        ensures
            r == self.product(other),
    ;

    fn div(self, other: Self) -> (r: Self)
        ensures
            r == self.quotient(other),
    ;

    fn sqrt(self) -> (r: Self)
        ensures
            r == self.root(),
    ;

    fn sin(self) -> (r: Self)
        ensures
            r == self.sine(),
    ;

    fn to_pixel(self) -> (r: u16)
        ensures
            r == self.pixel(),
    ;
}

} // verus!
