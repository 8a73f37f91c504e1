//! Two-dimensional vectors.

use vstd::prelude::*;
use crate::scalar::Scalar;

verus! {

/// A vector in the plane.
#[derive(Debug)]
pub struct Vect<S: Scalar> {
    pub x: S,
    pub y: S,
}

impl<S: Scalar> Clone for Vect<S> {
    fn clone(&self) -> (r: Self)
        ensures
            r == *self,
    {
        *self
    }
}

impl<S: Scalar> Copy for Vect<S> {

}

impl<S: Scalar> Vect<S> {
    /// The zero vector.
    pub open spec fn origin() -> Vect<S> {
        Vect { x: S::nil(), y: S::nil() }
    }

    /// The component-wise sum of `self` and `other`.
    pub open spec fn sum(self, other: Vect<S>) -> Vect<S> {
        Vect { x: self.x.sum(other.x), y: self.y.sum(other.y) }
    }

    /// The component-wise difference of `self` and `other`.
    pub open spec fn difference(self, other: Vect<S>) -> Vect<S> {
        Vect { x: self.x.difference(other.x), y: self.y.difference(other.y) }
    }

    /// `self` with both components multiplied by `r`.
    pub open spec fn scaled(self, r: S) -> Vect<S> {
        Vect { x: self.x.product(r), y: self.y.product(r) }
    }

    /// The Euclidean length: the root of `x * x + y * y`.
    pub open spec fn norm(self) -> S {
        self.x.product(self.x).sum(self.y.product(self.y)).root()
    }

    pub fn zero() -> (r: Vect<S>)
        ensures
            r == Self::origin(),
    {
        Vect { x: S::zero(), y: S::zero() }
    }

    pub fn add(self, vec: Vect<S>) -> (r: Vect<S>)
        ensures
            r == self.sum(vec),
    {
        Vect { x: self.x.add(vec.x), y: self.y.add(vec.y) }
    }

    pub fn sub(self, vec: Vect<S>) -> (r: Vect<S>)
        ensures
            r == self.difference(vec),
    {
        Vect { x: self.x.sub(vec.x), y: self.y.sub(vec.y) }
    }

    pub fn size(&self) -> (r: S)
        ensures
            r == self.norm(),
    {
        self.x.mul(self.x).add(self.y.mul(self.y)).sqrt()
    }

    /// Multiplies both components by `r`, in place.
    pub fn scale(&mut self, r: S)
        ensures
            *final(self) == old(self).scaled(r),
    {
        self.x = self.x.mul(r);
        self.y = self.y.mul(r);
    }
}

} // verus!
