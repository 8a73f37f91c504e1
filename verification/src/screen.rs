//! What a display of the chain decides and computes, apart from drawing.

use vstd::prelude::*;
use crate::scalar::Scalar;
use crate::vect::Vect;
use crate::chord::Chord;

verus! {

/// What the display heard from its user.
#[derive(Clone, Copy, Debug, PartialEq, Eq)]
pub enum Event {
    /// The window was asked to close.
    Quit,
    /// A key went down or up; `escape` tells whether it was the escape key.
    Key { escape: bool, down: bool },
    /// Anything else, and nothing at all.
    Other,
}

/// The least width and height that a screen can plot on.
pub open spec fn least_extent() -> int {
    isize::MIN + MARGIN
}

/// The width of the border that stays free on both sides together.
pub const MARGIN: isize = 100;

/// A drawing area of `width` by `height` pixels, and whether its user has
/// asked to leave.
#[derive(Clone, Copy, Debug)]
pub struct Screen {
    pub width: isize,
    pub height: isize,
    pub should_end: bool,
}

impl Event {
    /// Whether the event asks to leave: a request to close, or the escape
    /// key going down.
    pub open spec fn leaves(self) -> bool {
        match self {
            Event::Quit => true,
            Event::Key { escape, down } => escape && down,
            Event::Other => false,
        }
    }
}

impl Screen {
    /// Where a dot at `pos` of a chain of `len` dots is drawn, before
    /// rounding, from the left edge: the chain is spread over the width less
    /// the margin, and starts half a margin in.
    pub open spec fn across<S: Scalar>(self, pos: Vect<S>, len: usize) -> S {
        pos.x.product(S::signed((self.width - MARGIN) as isize)).quotient(S::length(len)).sum(
            S::count(50),
        )
    }

    /// Where a dot at `pos` of a chain of `len` dots is drawn, before
    /// rounding, from the top edge: heights are scaled as widths are, and
    /// height zero lies in the middle of the screen.
    pub open spec fn down<S: Scalar>(self, pos: Vect<S>, len: usize) -> S {
        pos.y.product(S::signed((self.height - MARGIN) as isize)).quotient(S::length(len)).sum(
            S::signed(self.height).quotient(S::count(2)),
        )
    }

    /// The pixel at which a dot at `pos` of a chain of `len` dots is drawn.
    pub open spec fn spot<S: Scalar>(self, pos: Vect<S>, len: usize) -> (u16, u16) {
        (self.across(pos, len).pixel(), self.down(pos, len).pixel())
    }

    /// A screen that nobody has asked to leave yet.
    pub fn new(w: isize, h: isize) -> (r: Screen)
        ensures
            r.width == w,
            r.height == h,
            !r.should_end,
    {
        Screen { width: w, height: h, should_end: false }
    }

    /// Takes note of one event: once asked to leave, the screen stays so.
    pub fn tick(&mut self, event: Event)
        ensures
            final(self).width == old(self).width,
            final(self).height == old(self).height,
            final(self).should_end == (old(self).should_end || event.leaves()),
    {
        match event {
            Event::Quit => {
                self.should_end = true;
            },
            Event::Key { escape, down } => {
                if down {
                    if escape {
                        self.should_end = true;
                    }
                }
            },
            Event::Other => {},
        }
    }

    /// The pixels at which the dots of `chord` are drawn, in the chain's
    /// order.
    pub fn draw<S: Scalar>(&self, chord: &Chord<S>) -> (r: Vec<(u16, u16)>)
        requires
            self.width >= least_extent(),
            self.height >= least_extent(),
        ensures
            r@.len() == chord.chord@.len(),
            forall|i: int|
                0 <= i < r@.len() ==> #[trigger] r@[i] == self.spot(
                    chord.chord@[i].pos,
                    chord.chord@.len() as usize,
                ),
    {
        let len = chord.chord.len();
        let wide = S::from_isize(self.width - MARGIN);
        let high = S::from_isize(self.height - MARGIN);
        let count = S::from_usize(len);
        let left = S::from_count(50);
        let middle = S::from_isize(self.height).div(S::from_count(2));
        let mut spots: Vec<(u16, u16)> = Vec::with_capacity(len);
        let mut i: usize = 0;
        while i < len
            invariant
                i <= len,
                len == chord.chord@.len(),
                self.width >= least_extent(),
                self.height >= least_extent(),
                wide == S::signed((self.width - MARGIN) as isize),
                high == S::signed((self.height - MARGIN) as isize),
                count == S::length(len),
                left == S::count(50),
                middle == S::signed(self.height).quotient(S::count(2)),
                spots@.len() == i,
                forall|j: int| 0 <= j < i ==> #[trigger] spots@[j] == self.spot(chord.chord@[j].pos, len),
            decreases len - i,
        {
            let pos = chord.chord[i].pos;
            let x = pos.x.mul(wide).div(count).add(left);
            let y = pos.y.mul(high).div(count).add(middle);
            spots.push((x.to_pixel(), y.to_pixel()));
            i += 1;
        }
        spots
    }
}

} // verus!
