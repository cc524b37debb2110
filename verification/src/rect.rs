use vstd::prelude::*;

use crate::point::Point;

verus! {

/// An axis-aligned rectangle with integer coordinates.
///
/// A rectangle is well formed (`wf`) when its width and height are
/// non-negative and its right and bottom edges fit in `i16`.
#[derive(Clone, Copy, PartialEq, Eq, Structural, Debug)]
pub struct Rect {
    pub position: Point,
    pub width: i16,
    pub height: i16,
}

impl Rect {
    /// The right edge, `x + width`, as a mathematical integer.
    pub open spec fn spec_right(self) -> int {
        self.position.x + self.width
    }

    /// The bottom edge, `y + height`, as a mathematical integer.
    pub open spec fn spec_bottom(self) -> int {
        self.position.y + self.height
    }

    /// Well-formedness: non-negative extent, edges representable in `i16`.
    pub open spec fn wf(self) -> bool {
        &&& 0 <= self.width
        &&& 0 <= self.height
        &&& self.spec_right() <= i16::MAX
        &&& self.spec_bottom() <= i16::MAX
    }

    /// Intersection of the two rectangles' half-open intervals on both axes.
    pub open spec fn spec_intersects(self, other: Rect) -> bool {
        &&& self.position.x < other.spec_right()
        &&& self.spec_right() > other.position.x
        &&& self.position.y < other.spec_bottom()
        &&& self.spec_bottom() > other.position.y
    }

    pub fn new(position: Point, width: i16, height: i16) -> (r: Rect)
        ensures
            r == (Rect { position, width, height }),
    {
        Rect { position, width, height }
    }

    pub fn new_from_x_y(x: i16, y: i16, width: i16, height: i16) -> (r: Rect)
        ensures
            r == (Rect { position: Point { x, y }, width, height }),
    {
        Rect::new(Point { x, y }, width, height)
    }

    pub fn x(&self) -> (r: i16)
        ensures
            r == self.position.x,
    {
        self.position.x
    }

    pub fn y(&self) -> (r: i16)
        ensures
            r == self.position.y,
    {
        self.position.y
    }

    /// True iff the two rectangles overlap on both axes.
    pub fn intersects(&self, other: &Rect) -> (r: bool)
        requires
            self.wf(),
            other.wf(),
        ensures
            r == self.spec_intersects(*other),
    {
        self.x() < other.right()
            && self.right() > other.x()
            && self.y() < other.bottom()
            && self.bottom() > other.y()
    }

    pub fn right(&self) -> (r: i16)
        requires
            i16::MIN <= self.spec_right() <= i16::MAX,
        ensures
            r == self.spec_right(),
    {
        self.x() + self.width
    }

    pub fn bottom(&self) -> (r: i16)
        requires
            i16::MIN <= self.spec_bottom() <= i16::MAX,
        ensures
            r == self.spec_bottom(),
    {
        self.y() + self.height
    }

    pub fn set_x(&mut self, x: i16)
        ensures
            *final(self) == (Rect {
                position: Point { x, y: old(self).position.y },
                width: old(self).width,
                height: old(self).height,
            }),
    {
        self.position.x = x;
    }
}

/// Intersection is symmetric: probing A against B and B against A agree.
pub proof fn lemma_intersects_symmetric(a: Rect, b: Rect)
    ensures
        a.spec_intersects(b) == b.spec_intersects(a),
{
}

/// A rectangle that is degenerate on an axis (zero width or zero height)
/// intersects nothing, in either direction, as long as its coordinate on
/// each degenerate axis does not lie strictly inside the other rectangle's
/// open span on that axis. In particular a degenerate rectangle never
/// intersects a rectangle sharing its origin, nor itself.
pub proof fn lemma_degenerate_never_intersects(a: Rect, b: Rect)
    requires
        a.width == 0 || a.height == 0,
        a.width == 0 ==> !(b.position.x < a.position.x && a.position.x < b.spec_right()),
        a.height == 0 ==> !(b.position.y < a.position.y && a.position.y < b.spec_bottom()),
    ensures
        !a.spec_intersects(b),
        !b.spec_intersects(a),
{
}

} // verus!
