//! A vibrating string as a chain of point masses joined by ideal springs.
//!
//! The chain is generic over the numbers it computes with: every position,
//! velocity and acceleration is a [`Scalar`], and every contract is stated
//! over the scalar's own operations. [`Fixed`] is the scalar that the crate
//! itself supplies and verifies.

pub mod scalar;
pub mod fixed;
pub mod vect;
pub mod dot;
pub mod chord;
pub mod laws;
pub mod screen;

pub use crate::chord::{Chord, ChordError, Profile};
pub use crate::dot::Dot;
pub use crate::fixed::Fixed;
pub use crate::scalar::Scalar;
pub use crate::screen::{Event, Screen};
pub use crate::vect::Vect;
