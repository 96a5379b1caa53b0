//! Screen rectangles.
use vstd::prelude::*;

verus! {

/// A rectangle on screen. `left` and `top` are the coordinates of its
/// origin; `right` and `bottom` are its extent to the right and downwards,
/// that is, its width and its height.
#[derive(Clone, Copy, Debug, PartialEq, Eq, Structural)]
pub struct Rect {
    pub left: i32,
    pub top: i32,
    pub right: i32,
    pub bottom: i32,
}

impl Rect {
    /// Whether the point `(x, y)` lies inside the rectangle, borders included.
    pub open spec fn spec_contains_point(self, x: int, y: int) -> bool {
        &&& self.left <= x <= self.left + self.right
        &&& self.top <= y <= self.top + self.bottom
    }

    /// Tests whether `point` lies inside the rectangle, borders included. The
    /// far edges are computed without overflow.
    pub fn contains_point(&self, point: (i32, i32)) -> (r: bool)
        ensures
            r == self.spec_contains_point(point.0 as int, point.1 as int),
    {
        let x: i64 = point.0 as i64;
        let y: i64 = point.1 as i64;
        let left: i64 = self.left as i64;
        let top: i64 = self.top as i64;
        x >= left && x <= left + self.right as i64 && y >= top && y <= top + self.bottom as i64
    }
}

impl Default for Rect {
    fn default() -> (r: Rect)
        ensures
            r == (Rect { left: 0, top: 0, right: 0, bottom: 0 }),
    {
        Rect { left: 0, top: 0, right: 0, bottom: 0 }
    }
}

} // verus!
