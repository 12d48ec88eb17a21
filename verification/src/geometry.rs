//! Axis-aligned boxes and the overlap test of the collision detector.

use vstd::prelude::*;

verus! {

/// An axis-aligned box in the plane, by its four edges.
pub struct Rect {
    pub left: int,
    pub right: int,
    pub bottom: int,
    pub top: int,
}

impl Rect {
    /// The box of half-extents `half_width` and `half_height` around a centre.
    pub open spec fn centred(x: int, y: int, half_width: int, half_height: int) -> Rect {
        Rect {
            left: x - half_width,
            right: x + half_width,
            bottom: y - half_height,
            top: y + half_height,
        }
    }

    /// Whether two boxes share a point. Boxes that only touch do.
    pub open spec fn intersects(self, other: Rect) -> bool {
        &&& self.left <= other.right
        &&& self.right >= other.left
        &&& self.bottom <= other.top
        &&& self.top >= other.bottom
    }
}

/// An axis-aligned box in the plane, by its four edges, in millionths of a
/// field unit.
#[derive(Clone, Copy, Debug, PartialEq, Eq, Structural)]
pub struct Aabb {
    pub left: i128,
    pub right: i128,
    pub bottom: i128,
    pub top: i128,
}

impl View for Aabb {
    type V = Rect;

    open spec fn view(&self) -> Rect {
        Rect {
            left: self.left as int,
            right: self.right as int,
            bottom: self.bottom as int,
            top: self.top as int,
        }
    }
}

impl Aabb {
    /// Whether two boxes share a point. Boxes that only touch do.
    pub fn intersects(&self, other: &Aabb) -> (hit: bool)
        ensures
            hit == self@.intersects(other@),
    {
        let x_overlaps = self.left <= other.right && self.right >= other.left;
        let y_overlaps = self.bottom <= other.top && self.top >= other.bottom;
        x_overlaps && y_overlaps
    }
}

} // verus!
