use vstd::prelude::*;

verus! {

/// An axis-aligned rectangle given by two corners.
#[derive(PartialEq, Eq, Structural, Copy, Clone, Debug)]
pub struct Rect {
    pub x1: i32,
    pub x2: i32,
    pub y1: i32,
    pub y2: i32,
}

impl Rect {
    /// The center of the rectangle, rounding toward zero as integer division does.
    pub fn center(&self) -> (r: (i32, i32))
        requires
            i32::MIN <= self.x1 + self.x2 <= i32::MAX,
            i32::MIN <= self.y1 + self.y2 <= i32::MAX,
        ensures
            r.0 == trunc_div2(self.x1 + self.x2),
            r.1 == trunc_div2(self.y1 + self.y2),
    {
        ((self.x1 + self.x2) / 2, (self.y1 + self.y2) / 2)
    }
}

/// Division by two that rounds toward zero, as Rust's `/` does on integers.
pub open spec fn trunc_div2(v: int) -> int {
    if v >= 0 { v / 2 } else { -((-v) / 2) }
}

} // verus!
