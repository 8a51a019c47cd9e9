use vstd::prelude::*;

verus! {

/// An axis-aligned rectangle `(x1, y1, x2, y2)` in grid coordinates; the
/// outer ring of cells is the room's wall, the cells strictly inside are
/// its floor.
#[derive(Debug, Clone, Copy, PartialEq, Eq, Structural)]
pub struct Rect {
    pub x1: i32,
    pub y1: i32,
    pub x2: i32,
    pub y2: i32,
}

/// Inclusive-edge overlap: rectangles whose borders merely touch intersect.
pub open spec fn rects_intersect(a: Rect, b: Rect) -> bool {
    a.x1 <= b.x2 && a.x2 >= b.x1 && a.y1 <= b.y2 && a.y2 >= b.y1
}

/// Half of `s`, rounded toward zero as machine division rounds.
pub open spec fn half(s: int) -> int {
    if s >= 0 {
        s / 2
    } else {
        -((-s) / 2)
    }
}

/// The center of a rectangle, each coordinate the halved sum of its bounds.
pub open spec fn center_of(r: Rect) -> (int, int) {
    (half(r.x1 + r.x2), half(r.y1 + r.y2))
}

impl Rect {
    /// The rectangle with corner `(x, y)`, `w` cells wide and `h` tall.
    pub fn new(x: i32, y: i32, w: i32, h: i32) -> (r: Rect)
        requires
            i32::MIN <= x + w <= i32::MAX,
            i32::MIN <= y + h <= i32::MAX,
        ensures
            r == (Rect { x1: x, y1: y, x2: (x + w) as i32, y2: (y + h) as i32 }),
    {
        Rect { x1: x, y1: y, x2: x + w, y2: y + h }
    }

    /// The center cell, rounding each coordinate toward zero.
    pub fn center(&self) -> (r: (i32, i32))
        ensures
            (r.0 as int, r.1 as int) == center_of(*self),
    {
        let center_x = ((self.x1 as i64 + self.x2 as i64) / 2) as i32;
        let center_y = ((self.y1 as i64 + self.y2 as i64) / 2) as i32;
        (center_x, center_y)
    }

    /// Whether the two rectangles overlap, touching edges included.
    pub fn intersects_with(&self, other: &Rect) -> (r: bool)
        ensures
            r == rects_intersect(*self, *other),
    {
        (self.x1 <= other.x2) && (self.x2 >= other.x1) && (self.y1 <= other.y2) && (self.y2
            >= other.y1)
    }
}

} // verus!
