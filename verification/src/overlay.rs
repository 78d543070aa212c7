//! A one-shot plan for overlaying an image once its asset has loaded.
//!
//! The drawing host registers a load callback for the image asset and, when
//! it fires, asks the plan where to draw. The plan hands out its anchor —
//! the fractal's top-left corner — exactly once: a second notification,
//! spurious or not, is answered with `None` and changes nothing, so the
//! overlay can never be drawn twice.

use vstd::prelude::*;

use crate::geometry::{point_in_range, Point, SIDE_LIMIT};

verus! {

/// Where the overlay is drawn: the top-left corner of the fractal's
/// bounding box, that is the apex's y and the left base vertex's x.
pub open spec fn overlay_anchor(top: Point, side: int) -> Point {
    Point { x: (top.x - side / 2) as i64, y: top.y }
}

/// The pending overlay: its precomputed anchor, and whether the one
/// permitted draw has already been handed out.
pub struct OverlayPlan {
    pub anchor: Point,
    pub drawn: bool,
}

impl OverlayPlan {
    /// Prepares the overlay for a fractal with apex `top` and the given
    /// side length. Nothing is drawn yet.
    pub fn new(top: Point, side_length: i64) -> (r: OverlayPlan)
        requires
            0 <= side_length <= SIDE_LIMIT,
            point_in_range(top),
        ensures
            r.anchor == overlay_anchor(top, side_length as int),
            !r.drawn,
    {
        proof {
            vstd::arithmetic::div_mod::lemma_div_is_ordered(0, side_length as int, 2);
            vstd::arithmetic::div_mod::lemma_div_nonincreasing(side_length as int, 2);
        }
        OverlayPlan { anchor: Point { x: top.x - side_length / 2, y: top.y }, drawn: false }
    }

    /// Consumes the single permitted draw. The first load notification is
    /// answered with the anchor and marks the plan drawn; every later one
    /// is answered with `None` and leaves the plan unchanged.
    pub fn on_loaded(&mut self) -> (r: Option<Point>)
        ensures
            !old(self).drawn ==> r == Some(old(self).anchor) && final(self).drawn
                && final(self).anchor == old(self).anchor,
            old(self).drawn ==> r is None && *final(self) == *old(self),
    {
        if self.drawn {
            None
        } else {
            self.drawn = true;
            Some(self.anchor)
        }
    }
}

} // verus!
