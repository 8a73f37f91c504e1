//! A single point mass.

use vstd::prelude::*;
use crate::scalar::Scalar;
use crate::vect::Vect;

verus! {

/// A point mass: where it is, how it moves, and whether it is pinned.
///
/// A pinned (`fixed`) dot is an anchor. Nothing in this type stops a caller
/// from moving one; the chain's update is what leaves anchors alone.
#[derive(Debug)]
pub struct Dot<S: Scalar> {
    pub pos: Vect<S>,
    pub vel: Vect<S>,
    pub acc: Vect<S>,
    pub fixed: bool,
}

impl<S: Scalar> Clone for Dot<S> {
    fn clone(&self) -> (r: Self)
        ensures
            r == *self,
    {
        *self
    }
}

impl<S: Scalar> Copy for Dot<S> {

}

impl<S: Scalar> Dot<S> {
    /// A dot at rest at `pos`.
    pub open spec fn at_rest(pos: Vect<S>, fixed: bool) -> Dot<S> {
        Dot { pos, vel: Vect::origin(), acc: Vect::origin(), fixed }
    }

    /// The vector that points from `self` to `other`.
    pub open spec fn pull(self, other: Dot<S>) -> Vect<S> {
        other.pos.difference(self.pos)
    }

    /// `self` after its velocity has been added to its position.
    pub open spec fn moved(self) -> Dot<S> {
        Dot { pos: self.pos.sum(self.vel), ..self }
    }

    /// `self` after its acceleration has been added to its velocity.
    pub open spec fn accelerated(self) -> Dot<S> {
        Dot { vel: self.vel.sum(self.acc), ..self }
    }

    /// `self` with its acceleration replaced by `force`.
    pub open spec fn forced(self, force: Vect<S>) -> Dot<S> {
        Dot { acc: force, ..self }
    }

    pub fn new(x: S, y: S, f: bool) -> (r: Dot<S>)
        ensures
            r == Self::at_rest((Vect { x, y }), f),
    {
        Dot { pos: Vect { x, y }, vel: Vect::zero(), acc: Vect::zero(), fixed: f }
    }

    /// One step of motion: `pos` becomes `pos + vel`.
    pub fn move_it(&mut self)
        ensures
            *final(self) == old(self).moved(),
    {
        self.pos = self.pos.add(self.vel);
    }

    /// One step of acceleration: `vel` becomes `vel + acc`.
    pub fn accelerate(&mut self)
        ensures
            *final(self) == old(self).accelerated(),
    {
        self.vel = self.vel.add(self.acc);
    }

    /// The pull of a unit spring from `self` towards `dot`.
    pub fn get_force(self, dot: Dot<S>) -> (r: Vect<S>)
        ensures
            r == self.pull(dot),
    {
        let x = dot.pos.x.sub(self.pos.x);
        let y = dot.pos.y.sub(self.pos.y);
        Vect { x, y }
    }

    /// Replaces the acceleration; what was there before is forgotten.
    pub fn set_force(&mut self, vect: Vect<S>)
        ensures
            *final(self) == old(self).forced(vect),
    {
        self.acc = vect;
    }
}

} // verus!
