//! An axis-aligned rectangle, used when rooms are carved into the grid.
use vstd::prelude::*;

verus! {

/// An axis-aligned region of the grid, given by its two corners.
/// `x2` and `y2` are exclusive of the region's interior walls: a room
/// carved from this rectangle opens the cells strictly inside the
/// border, `x1 + 1 .. x2` by `y1 + 1 .. y2`.
#[derive(Clone, Copy, Debug, PartialEq, Eq, Structural)]
pub struct Rect {
    pub x1: i32,
    pub y1: i32,
    pub x2: i32,
    pub y2: i32,
}

impl Rect {
    /// Builds the rectangle with origin `(x, y)`, width `w` and height `h`.
    pub fn new(x: i32, y: i32, w: i32, h: i32) -> (r: Rect)
        requires
            i32::MIN <= x + w <= i32::MAX,
            i32::MIN <= y + h <= i32::MAX,
        ensures
            r.x1 == x,
            r.y1 == y,
            r.x2 == x + w,
            r.y2 == y + h,
    {
        Rect { x1: x, y1: y, x2: x + w, y2: y + h }
    }
}

/// Whether `(x, y)` lies strictly inside `r`, off its one-cell border.
pub open spec fn rect_interior_contains(r: Rect, x: int, y: int) -> bool {
    &&& r.x1 + 1 <= x < r.x2
    &&& r.y1 + 1 <= y < r.y2
}

} // verus!
