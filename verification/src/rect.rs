//! Axis-aligned rectangles on the integer lattice.

use vstd::prelude::*;

verus! {

/// An axis-aligned rectangle given by two opposite corners.
///
/// A rectangle is well formed when `x1 < x2` and `y1 < y2`. The constructors
/// return only well-formed rectangles.
#[derive(Clone, Copy, Debug, PartialEq, Eq, Structural)]
pub struct Rect {
    /// The left edge.
    pub x1: i32,
    /// The top edge.
    pub y1: i32,
    /// The right edge.
    pub x2: i32,
    /// The bottom edge.
    pub y2: i32,
}

impl Rect {
    /// The invariant of a rectangle: it has positive extent on both axes.
    pub open spec fn wf(self) -> bool {
        self.x1 < self.x2 && self.y1 < self.y2
    }

    /// The distance between the left and the right edge.
    pub open spec fn spec_width(self) -> int {
        self.x2 - self.x1
    }

    /// The distance between the top and the bottom edge.
    pub open spec fn spec_height(self) -> int {
        self.y2 - self.y1
    }

    /// Whether the two rectangles share a point, edges included.
    pub open spec fn spec_intersects(self, other: Rect) -> bool {
        self.x1 <= other.x2 && self.x2 >= other.x1 && self.y1 <= other.y2 && self.y2 >= other.y1
    }

    /// The midpoint of the rectangle, each coordinate rounded down.
    pub open spec fn spec_center(self) -> (int, int) {
        ((self.x1 + self.x2) / 2, (self.y1 + self.y2) / 2)
    }

    /// Whether the point lies strictly between the edges on both axes.
    pub open spec fn interior_contains(self, x: int, y: int) -> bool {
        self.x1 < x < self.x2 && self.y1 < y < self.y2
    }

    /// Builds the rectangle with the given corners, if they are in order.
    pub fn new(x1: i32, y1: i32, x2: i32, y2: i32) -> (r: Option<Rect>)
        ensures
            r == (if x1 < x2 && y1 < y2 {
                Some(Rect { x1, y1, x2, y2 })
            } else {
                None
            }),
    {
        if x1 < x2 && y1 < y2 {
            Some(Rect { x1, y1, x2, y2 })
        } else {
            None
        }
    }

    /// Builds the rectangle whose top-left corner is `(x, y)` and whose far
    /// corner lies `width` to the right and `height` below, if both extents
    /// are positive and the far corner is representable.
    pub fn with_size(x: i32, y: i32, width: i32, height: i32) -> (r: Option<Rect>)
        ensures
            r == (if width > 0 && height > 0 && x + width <= i32::MAX && y + height <= i32::MAX {
                Some(Rect { x1: x, y1: y, x2: (x + width) as i32, y2: (y + height) as i32 })
            } else {
                None
            }),
    {
        if width <= 0 || height <= 0 {
            return None;
        }
        match (x.checked_add(width), y.checked_add(height)) {
            (Some(x2), Some(y2)) => Some(Rect { x1: x, y1: y, x2, y2 }),
            _ => None,
        }
    }

    /// Tells whether the two rectangles share a point, edges included.
    pub fn intersects(&self, other: &Rect) -> (b: bool)
        ensures
            b == self.spec_intersects(*other),
    {
        self.x1 <= other.x2 && self.x2 >= other.x1 && self.y1 <= other.y2 && self.y2 >= other.y1
    }

    /// Returns the midpoint of the rectangle. Each coordinate is the mean of
    /// the two edges, rounded down, so the point never leaves a well-formed
    /// rectangle.
    pub fn center(&self) -> (c: (i32, i32))
        ensures
            (c.0 as int, c.1 as int) == self.spec_center(),
            self.wf() ==> self.x1 <= c.0 < self.x2 && self.y1 <= c.1 < self.y2,
    {
        (midpoint(self.x1, self.x2), midpoint(self.y1, self.y2))
    }
}

/// The mean of two coordinates, rounded down.
pub fn midpoint(a: i32, b: i32) -> (m: i32)
    ensures
        m as int == (a + b) / 2,
{
    let span: i64 = b as i64 - a as i64;
    let half: i64 = if span >= 0 {
        span / 2
    } else {
        -((1 - span) / 2)
    };
    (a as i64 + half) as i32
}

/// Intersection does not depend on the order of the two rectangles.
pub proof fn intersects_symmetric(a: Rect, b: Rect)
    ensures
        a.spec_intersects(b) == b.spec_intersects(a),
{
}

/// Every well-formed rectangle intersects itself.
pub proof fn intersects_reflexive(a: Rect)
    requires
        a.wf(),
    ensures
        a.spec_intersects(a),
{
}

/// The midpoint of a well-formed rectangle lies inside it or on its boundary.
pub proof fn center_within(a: Rect)
    requires
        a.wf(),
    ensures
        a.x1 <= a.spec_center().0 <= a.x2,
        a.y1 <= a.spec_center().1 <= a.y2,
{
}

/// The interior of a rectangle that spans at least two cells on each axis
/// contains its midpoint.
pub proof fn center_in_interior(a: Rect)
    requires
        a.spec_width() >= 2,
        a.spec_height() >= 2,
    ensures
        a.interior_contains(a.spec_center().0, a.spec_center().1),
{
}

} // verus!
