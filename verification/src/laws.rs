//! What holds of a chain however long it runs.

use vstd::prelude::*;
use crate::scalar::Scalar;
use crate::fixed::{Fixed, ONE, truncated};
use crate::vect::Vect;
use crate::dot::Dot;
use crate::chord::{Chord, Profile};

verus! {

/// Every starting shape over `n >= 2` segments has `n + 1` dots, of which
/// the first and the last are pinned and all others are free and at rest.
pub proof fn lemma_profile_shape<S: Scalar>(n: u16, profile: Profile)
    requires
        n >= 2,
    ensures
        Chord::<S>::profile_points(n, profile).len() == n + 1,
        forall|i: int|
            0 <= i <= n ==> (#[trigger] Chord::<S>::profile_points(n, profile)[i]).fixed == (i == 0
                || i == n),
        forall|i: int|
            0 <= i <= n ==> {
                &&& (#[trigger] Chord::<S>::profile_points(n, profile)[i]).vel == Vect::<S>::origin()
                &&& Chord::<S>::profile_points(n, profile)[i].acc == Vect::<S>::origin()
            },
{
}

/// A step changes neither the number of dots nor which of them are pinned,
/// and a pinned dot keeps its position and its velocity.
pub proof fn lemma_step_keeps_anchors<S: Scalar>(points: Seq<Dot<S>>, k: S)
    ensures
        Chord::step(points, k).len() == points.len(),
        forall|i: int|
            0 <= i < points.len() ==> (#[trigger] Chord::step(points, k)[i]).fixed
                == points[i].fixed,
        forall|i: int|
            0 <= i < points.len() && points[i].fixed ==> {
                &&& (#[trigger] Chord::step(points, k)[i]).pos == points[i].pos
                &&& Chord::step(points, k)[i].vel == points[i].vel
            },
{
}

/// After any number of steps the chain has as many dots as before, the same
/// dots are pinned, and each pinned dot has the position and the velocity
/// that it started with.
pub proof fn lemma_steps_keep_anchors<S: Scalar>(points: Seq<Dot<S>>, k: S, m: nat)
    ensures
        Chord::steps(points, k, m).len() == points.len(),
        forall|i: int|
            0 <= i < points.len() ==> (#[trigger] Chord::steps(points, k, m)[i]).fixed
                == points[i].fixed,
        forall|i: int|
            0 <= i < points.len() && points[i].fixed ==> {
                &&& (#[trigger] Chord::steps(points, k, m)[i]).pos == points[i].pos
                &&& Chord::steps(points, k, m)[i].vel == points[i].vel
            },
    decreases m,
{
    if m > 0 {
        let earlier = Chord::steps(points, k, (m - 1) as nat);
        lemma_steps_keep_anchors(points, k, (m - 1) as nat);
        lemma_step_keeps_anchors(earlier, k);
    }
}

/// A well-formed chain stays well formed, however many steps it takes.
pub proof fn lemma_steps_keep_wf<S: Scalar>(before: Chord<S>, after: Chord<S>, m: nat)
    requires
        before.wf(),
        after.chord@ == Chord::steps(before.chord@, before.k, m),
    ensures
        after.wf(),
{
    lemma_steps_keep_anchors(before.chord@, before.k, m);
}

/// The step is a function of the chain's state: two chains that agree in
/// stiffness and in every dot agree after one step, and after any number.
pub proof fn lemma_step_deterministic<S: Scalar>(a: Chord<S>, b: Chord<S>, m: nat)
    requires
        a.k == b.k,
        a.chord@ == b.chord@,
    ensures
        Chord::step(a.chord@, a.k) == Chord::step(b.chord@, b.k),
        Chord::steps(a.chord@, a.k, m) == Chord::steps(b.chord@, b.k, m),
{
}

/// A dot's new acceleration depends on the positions of the dot and its
/// neighbours before the step, and on nothing else: two states that agree on
/// all positions give every dot the same acceleration.
pub proof fn lemma_force_reads_positions<S: Scalar>(p: Seq<Dot<S>>, q: Seq<Dot<S>>, k: S, i: int)
    requires
        p.len() == q.len(),
        0 <= i < p.len(),
        forall|j: int| 0 <= j < p.len() ==> (#[trigger] p[j]).pos == q[j].pos,
    ensures
        Chord::force(p, k, i) == Chord::force(q, k, i),
        Chord::step(p, k)[i].acc == Chord::step(q, k)[i].acc,
{
}

/// A dot on which the pulls of its neighbours cancel gets the acceleration
/// zero, provided that the stiffness times zero is zero.
pub proof fn lemma_balanced_dot_rests<S: Scalar>(points: Seq<Dot<S>>, k: S, i: int)
    requires
        0 <= i < points.len(),
        Chord::net_pull(points, i) == Vect::<S>::origin(),
        S::nil().product(k) == S::nil(),
    ensures
        Chord::step(points, k)[i].acc == Vect::<S>::origin(),
{
}

/// The zero vector of fixed-point numbers has the size zero, exactly.
pub proof fn lemma_zero_vector_has_no_size()
    ensures
        Vect::<Fixed>::origin().norm() == Fixed::nil(),
{
    assert(0 * 0 == 0);
    assert(truncated(0, ONE as int) == 0);
}

/// Whether the dots lie on one line at equal distances: each inner dot is
/// as far from its left neighbour as its right neighbour is from it, in both
/// coordinates.
pub open spec fn evenly_spaced(points: Seq<Dot<Fixed>>) -> bool {
    forall|i: int|
        0 < i < points.len() - 1 ==> {
            &&& (#[trigger] points[i]).pos.x.raw - points[i - 1].pos.x.raw == points[i
                + 1].pos.x.raw - points[i].pos.x.raw
            &&& points[i].pos.y.raw - points[i - 1].pos.y.raw == points[i + 1].pos.y.raw
                - points[i].pos.y.raw
        }
}

/// Whether no dot moves.
pub open spec fn still(points: Seq<Dot<Fixed>>) -> bool {
    forall|i: int| 0 <= i < points.len() ==> (#[trigger] points[i]).vel == Vect::<Fixed>::origin()
}

/// On a straight, evenly spaced chain of fixed-point dots the pulls on every
/// inner dot cancel: one step leaves each with the acceleration zero,
/// whatever the stiffness.
pub proof fn lemma_straight_chain_balanced(points: Seq<Dot<Fixed>>, k: Fixed, i: int)
    requires
        evenly_spaced(points),
        0 < i < points.len() - 1,
    ensures
        Chord::net_pull(points, i) == Vect::<Fixed>::origin(),
        Chord::step(points, k)[i].acc == Vect::<Fixed>::origin(),
{
    assert(truncated(0, ONE as int) == 0);
    assert(0 * k.raw == 0);
    assert(Fixed::nil().product(k) == Fixed::nil());
}

/// A straight, evenly spaced chain of fixed-point dots that is still stays
/// as it is: after one step every inner dot has the position it had, and
/// velocity and acceleration zero.
pub proof fn lemma_straight_chain_stays(points: Seq<Dot<Fixed>>, k: Fixed, i: int)
    requires
        evenly_spaced(points),
        still(points),
        0 < i < points.len() - 1,
    ensures
        Chord::step(points, k)[i].pos == points[i].pos,
        Chord::step(points, k)[i].vel == Vect::<Fixed>::origin(),
        Chord::step(points, k)[i].acc == Vect::<Fixed>::origin(),
{
    lemma_straight_chain_balanced(points, k, i);
    assert(points[i].vel == Vect::<Fixed>::origin());
}

/// A straight, evenly spaced, still chain of fixed-point dots with both ends
/// pinned is at equilibrium: after any number of steps every dot is where it
/// was, and none moves.
pub proof fn lemma_straight_chain_at_equilibrium(points: Seq<Dot<Fixed>>, k: Fixed, m: nat)
    requires
        points.len() >= 2,
        points[0].fixed,
        points[points.len() - 1].fixed,
        evenly_spaced(points),
        still(points),
    ensures
        Chord::steps(points, k, m).len() == points.len(),
        forall|i: int|
            0 <= i < points.len() ==> {
                &&& (#[trigger] Chord::steps(points, k, m)[i]).pos == points[i].pos
                &&& Chord::steps(points, k, m)[i].vel == Vect::<Fixed>::origin()
            },
    decreases m,
{
    if m > 0 {
        let earlier = Chord::steps(points, k, (m - 1) as nat);
        lemma_straight_chain_at_equilibrium(points, k, (m - 1) as nat);
        lemma_steps_keep_anchors(points, k, (m - 1) as nat);
        assert(evenly_spaced(earlier)) by {
            assert forall|i: int| 0 < i < earlier.len() - 1 implies {
                &&& (#[trigger] earlier[i]).pos.x.raw - earlier[i - 1].pos.x.raw == earlier[i
                    + 1].pos.x.raw - earlier[i].pos.x.raw
                &&& earlier[i].pos.y.raw - earlier[i - 1].pos.y.raw == earlier[i + 1].pos.y.raw
                    - earlier[i].pos.y.raw
            } by {
                assert(earlier[i - 1].pos == points[i - 1].pos);
                assert(earlier[i + 1].pos == points[i + 1].pos);
                assert(earlier[i].pos == points[i].pos);
            }
        }
        assert(still(earlier));
        assert forall|i: int| 0 <= i < points.len() implies {
            &&& (#[trigger] Chord::steps(points, k, m)[i]).pos == points[i].pos
            &&& Chord::steps(points, k, m)[i].vel == Vect::<Fixed>::origin()
        } by {
            assert(earlier[i].pos == points[i].pos);
            if 0 < i < points.len() - 1 {
                lemma_straight_chain_stays(earlier, k, i);
            } else {
                lemma_step_keeps_anchors(earlier, k);
            }
        }
    }
}

} // verus!
