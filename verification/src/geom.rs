//! Axis-aligned rectangles in milliunits.

use vstd::prelude::*;

verus! {

/// An axis-aligned rectangle; `(x, y)` is its lower-left corner.
#[derive(Clone, Copy, PartialEq, Eq, Structural, Debug)]
pub struct Rect {
    pub x: i64,
    pub y: i64,
    pub width: i64,
    pub height: i64,
}

impl Rect {
    /// A well-formed rectangle has nonnegative extent.
    pub open spec fn wf(self) -> bool {
        self.width >= 0 && self.height >= 0
    }

    /// A fresh rectangle moved by `(dx, dy)`; the receiver is untouched.
    pub fn translate(&self, dx: i64, dy: i64) -> (r: Rect)
        requires
            self.x + dx <= i64::MAX,
            self.x + dx >= i64::MIN,
            self.y + dy <= i64::MAX,
            self.y + dy >= i64::MIN,
        ensures
            r.x == self.x + dx,
            r.y == self.y + dy,
            r.width == self.width,
            r.height == self.height,
    {
        Rect { x: self.x + dx, y: self.y + dy, width: self.width, height: self.height }
    }
}

} // verus!
