//! The chain: its two starting shapes and its update.

use vstd::prelude::*;
use crate::scalar::Scalar;
use crate::vect::Vect;
use crate::dot::Dot;

verus! {

/// The shape a chain starts in.
#[derive(Clone, Copy, Debug, PartialEq, Eq)]
pub enum Profile {
    /// A tent: rising to the middle, falling from there.
    Linear,
    /// Half a sine wave.
    Sine,
}

/// Why a chain could not be built.
#[derive(Clone, Copy, Debug, PartialEq, Eq)]
pub enum ChordError {
    /// Fewer than two segments were asked for.
    TooFewSegments,
}

/// A chain of dots, each joined to its neighbours by springs of stiffness `k`.
///
/// Neighbours are neighbours by index: dot `i` is tied to dots `i - 1` and
/// `i + 1`, where they exist.
pub struct Chord<S: Scalar> {
    pub k: S,
    pub chord: Vec<Dot<S>>,
}

impl<S: Scalar> Chord<S> {
    /// A chain is well formed when it has two ends and both are pinned.
    pub open spec fn wf(&self) -> bool {
        &&& self.chord@.len() >= 2
        &&& self.chord@[0].fixed
        &&& self.chord@[self.chord@.len() - 1].fixed
    }

    /// The rise per unit of length along the tent: three eighths.
    pub open spec fn slope() -> S {
        S::count(3).quotient(S::count(8))
    }

    /// Dot `i` of the tent over `n` segments.
    ///
    /// The height rises by `slope()` per dot before the middle, `n / 2`, and
    /// falls by as much per dot from the middle on.
    pub open spec fn linear_dot(n: u16, i: int) -> Dot<S> {
        if i <= 0 {
            Dot::at_rest(Vect::origin(), true)
        } else if i >= n {
            Dot::at_rest((Vect { x: S::count(n), y: S::nil() }), true)
        } else if i < n / 2 {
            Dot::at_rest(
                (Vect { x: S::count(i as u16), y: S::count(i as u16).product(Self::slope()) }),
                false,
            )
        } else {
            Dot::at_rest(
                (Vect {
                    x: S::count(i as u16),
                    y: S::count(n).difference(S::count(i as u16)).product(Self::slope()),
                }),
                false,
            )
        }
    }

    /// The tent over `n` segments: `n + 1` dots.
    pub open spec fn linear_points(n: u16) -> Seq<Dot<S>> {
        Seq::new((n + 1) as nat, |i: int| Self::linear_dot(n, i))
    }

    /// The height of dot `i` on the half wave over `n` segments:
    /// five times the sine of `i / n` of a half turn.
    pub open spec fn sine_height(n: u16, i: u16) -> S {
        S::half_turn().product(S::count(i)).quotient(S::count(n)).sine().product(S::count(5))
    }

    /// Dot `i` of the half wave over `n` segments.
    pub open spec fn sine_dot(n: u16, i: int) -> Dot<S> {
        if i <= 0 {
            Dot::at_rest(Vect::origin(), true)
        } else if i >= n {
            Dot::at_rest((Vect { x: S::count(n), y: S::nil() }), true)
        } else {
            Dot::at_rest(
                (Vect { x: S::count(i as u16), y: Self::sine_height(n, i as u16) }),
                false,
            )
        }
    }

    /// The half wave over `n` segments: `n + 1` dots.
    pub open spec fn sine_points(n: u16) -> Seq<Dot<S>> {
        Seq::new((n + 1) as nat, |i: int| Self::sine_dot(n, i))
    }

    /// The dots that a chain of the given profile starts with.
    pub open spec fn profile_points(n: u16, profile: Profile) -> Seq<Dot<S>> {
        match profile {
            Profile::Linear => Self::linear_points(n),
            Profile::Sine => Self::sine_points(n),
        }
    }

    /// The sum of the pulls on dot `i` from the neighbours it has, left
    /// neighbour first, starting from the zero vector.
    pub open spec fn net_pull(points: Seq<Dot<S>>, i: int) -> Vect<S> {
        let none = Vect::<S>::origin();
        let left = if i > 0 {
            none.sum(points[i].pull(points[i - 1]))
        } else {
            none
        };
        if i < points.len() - 1 {
            left.sum(points[i].pull(points[i + 1]))
        } else {
            left
        }
    }

    /// The acceleration that one step gives dot `i`.
    pub open spec fn force(points: Seq<Dot<S>>, k: S, i: int) -> Vect<S> {
        Self::net_pull(points, i).scaled(k)
    }

    /// Dot `i` after one step.
    ///
    /// Every dot takes its new acceleration, computed from where the dots
    /// were before the step. A free dot then gains it as velocity, and the
    /// new velocity as displacement. A pinned dot does neither.
    pub open spec fn step_dot(points: Seq<Dot<S>>, k: S, i: int) -> Dot<S> {
        let d = points[i].forced(Self::force(points, k, i));
        if d.fixed {
            d
        } else {
            d.accelerated().moved()
        }
    }

    /// All dots after one step.
    pub open spec fn step(points: Seq<Dot<S>>, k: S) -> Seq<Dot<S>> {
        Seq::new(points.len(), |i: int| Self::step_dot(points, k, i))
    }

    /// All dots after `m` steps.
    pub open spec fn steps(points: Seq<Dot<S>>, k: S, m: nat) -> Seq<Dot<S>>
        decreases m,
    {
        if m == 0 {
            points
        } else {
            Self::step(Self::steps(points, k, (m - 1) as nat), k)
        }
    }

    /// A chain of `n` segments in the shape of a tent.
    ///
    /// Fails exactly when `n` is less than two.
    pub fn new(n: u16, k: S) -> (r: Result<Chord<S>, ChordError>)
        ensures
            match r {
                Ok(c) => {
                    &&& n >= 2
                    &&& c.k == k
                    &&& c.chord@ == Self::linear_points(n)
                    &&& c.chord@.len() == n + 1
                    &&& c.wf()
                    &&& forall|i: int| 0 <= i <= n ==> (#[trigger] c.chord@[i]).fixed == (i == 0 || i == n)
                },
                Err(e) => n < 2 && e == ChordError::TooFewSegments,
            },
    {
        if n < 2 {
            return Err(ChordError::TooFewSegments);
        }
        let slope = S::from_count(3).div(S::from_count(8));
        let mut ds: Vec<Dot<S>> = Vec::with_capacity(n as usize);
        ds.push(Dot::new(S::zero(), S::zero(), true));
        let mut i: u16 = 1;
        while i < n / 2
            invariant
                n >= 2,
                1 <= i,
                i <= n / 2 || i == 1,
                slope == Self::slope(),
                ds@.len() == i,
                forall|j: int| 0 <= j < i ==> ds@[j] == Self::linear_dot(n, j),
            decreases n - i,
        {
            let x = S::from_count(i);
            ds.push(Dot::new(x, x.mul(slope), false));
            i += 1;
        }
        let mut i: u16 = n / 2;
        while i < n
            invariant
                n >= 2,
                n / 2 <= i <= n,
                slope == Self::slope(),
                ds@.len() == i,
                forall|j: int| 0 <= j < i ==> ds@[j] == Self::linear_dot(n, j),
            decreases n - i,
        {
            ds.push(Dot::new(S::from_count(i), S::from_count(n).sub(S::from_count(i)).mul(slope), false));
            i += 1;
        }
        ds.push(Dot::new(S::from_count(n), S::zero(), true));
        assert(ds@ =~= Self::linear_points(n));
        Ok(Chord { k, chord: ds })
    }

    /// A chain of `n` segments in the shape of half a sine wave.
    ///
    /// Fails exactly when `n` is less than two.
    pub fn new_sine(n: u16, k: S) -> (r: Result<Chord<S>, ChordError>)
        ensures
            match r {
                Ok(c) => {
                    &&& n >= 2
                    &&& c.k == k
                    &&& c.chord@ == Self::sine_points(n)
                    &&& c.chord@.len() == n + 1
                    &&& c.wf()
                    &&& forall|i: int| 0 <= i <= n ==> (#[trigger] c.chord@[i]).fixed == (i == 0 || i == n)
                },
                Err(e) => n < 2 && e == ChordError::TooFewSegments,
            },
    {
        if n < 2 {
            return Err(ChordError::TooFewSegments);
        }
        let mut ds: Vec<Dot<S>> = Vec::with_capacity(n as usize);
        ds.push(Dot::new(S::zero(), S::zero(), true));
        let mut i: u16 = 1;
        while i < n
            invariant
                n >= 2,
                1 <= i <= n,
                ds@.len() == i,
                forall|j: int| 0 <= j < i ==> ds@[j] == Self::sine_dot(n, j),
            decreases n - i,
        {
            let x = S::from_count(i);
            let y = S::pi().mul(x).div(S::from_count(n)).sin().mul(S::from_count(5));
            ds.push(Dot::new(x, y, false));
            i += 1;
        }
        ds.push(Dot::new(S::from_count(n), S::zero(), true));
        assert(ds@ =~= Self::sine_points(n));
        Ok(Chord { k, chord: ds })
    }

    /// A chain of `n` segments in the shape that `profile` names.
    ///
    /// Fails exactly when `n` is less than two.
    pub fn with_profile(n: u16, k: S, profile: Profile) -> (r: Result<Chord<S>, ChordError>)
        ensures
            match r {
                Ok(c) => {
                    &&& n >= 2
                    &&& c.k == k
                    &&& c.chord@ == Self::profile_points(n, profile)
                    &&& c.chord@.len() == n + 1
                    &&& c.wf()
                    &&& forall|i: int| 0 <= i <= n ==> (#[trigger] c.chord@[i]).fixed == (i == 0 || i == n)
                },
                Err(e) => n < 2 && e == ChordError::TooFewSegments,
            },
    {
        match profile {
            Profile::Linear => Self::new(n, k),
            Profile::Sine => Self::new_sine(n, k),
        }
    }

    /// Advances the chain by one step.
    ///
    /// The step has two passes, and the first is finished before the second
    /// begins: every dot's acceleration is set from the positions that the
    /// dots had on entry; then every free dot gains its acceleration as
    /// velocity and its new velocity as displacement. Pinned dots keep their
    /// position and velocity.
    pub fn tick(&mut self)
        ensures
            final(self).k == old(self).k,
            final(self).chord@ == Self::step(old(self).chord@, old(self).k),
            final(self).chord@.len() == old(self).chord@.len(),
            forall|i: int|
                0 <= i < old(self).chord@.len() ==> (#[trigger] final(self).chord@[i]).fixed
                    == old(self).chord@[i].fixed,
            forall|i: int|
                0 <= i < old(self).chord@.len() && old(self).chord@[i].fixed ==> {
                    &&& (#[trigger] final(self).chord@[i]).pos == old(self).chord@[i].pos
                    &&& final(self).chord@[i].vel == old(self).chord@[i].vel
                },
            old(self).wf() ==> final(self).wf(),
    {
        let ghost before = self.chord@;
        let len = self.chord.len();
        let mut i: usize = 0;
        while i < len
            invariant
                i <= len,
                len == before.len(),
                self.chord@.len() == len,
                self.k == old(self).k,
                forall|j: int|
                    0 <= j < i ==> #[trigger] self.chord@[j] == before[j].forced(
                        Self::force(before, self.k, j),
                    ),
                forall|j: int| i <= j < len ==> #[trigger] self.chord@[j] == before[j],
            decreases len - i,
        {
            let here = self.chord[i];
            let mut force = Vect::zero();
            if i > 0 {
                force = force.add(here.get_force(self.chord[i - 1]));
            }
            if i < len - 1 {
                force = force.add(here.get_force(self.chord[i + 1]));
            }
            force.scale(self.k);
            let mut dot = here;
            dot.set_force(force);
            self.chord.set(i, dot);
            i += 1;
        }
        let mut i: usize = 0;
        while i < len
            invariant
                i <= len,
                len == before.len(),
                self.chord@.len() == len,
                self.k == old(self).k,
                forall|j: int| 0 <= j < i ==> #[trigger] self.chord@[j] == Self::step_dot(before, self.k, j),
                forall|j: int|
                    i <= j < len ==> #[trigger] self.chord@[j] == before[j].forced(
                        Self::force(before, self.k, j),
                    ),
            decreases len - i,
        {
            let mut dot = self.chord[i];
            if !dot.fixed {
                dot.accelerate();
                dot.move_it();
                self.chord.set(i, dot);
            }
            i += 1;
        }
        assert(self.chord@ =~= Self::step(before, self.k));
    }
}

} // verus!
