//! Axis-aligned rectangles used during generation for room placement.

use vstd::prelude::*;

verus! {

/// A rectangle spanning `x1..=x2` by `y1..=y2`; only its interior
/// (excluding the first row and column) is carved to floor.
#[derive(PartialEq, Eq, Structural, Copy, Clone, Debug)]
pub struct Room {
    pub x1: i32,
    pub x2: i32,
    pub y1: i32,
    pub y2: i32,
}

impl Room {
    /// A room is kept in nonnegative coordinates with a positive extent,
    /// so its center arithmetic is exact.
    pub open spec fn wf(self) -> bool {
        0 <= self.x1 <= self.x2 <= 0x3fff_ffff && 0 <= self.y1 <= self.y2 <= 0x3fff_ffff
    }

    /// Midpoint of the rectangle (rounded down).
    pub open spec fn spec_center(self) -> (int, int) {
        ((self.x1 + self.x2) / 2, (self.y1 + self.y2) / 2)
    }

    /// Whether two rectangles touch or overlap (shared edges count).
    pub open spec fn spec_intersect(self, other: Room) -> bool {
        self.x1 <= other.x2 && self.x2 >= other.x1 && self.y1 <= other.y2 && self.y2 >= other.y1
    }

    /// The rectangle with corner `(x, y)` and extent `w` by `h`.
    pub fn new(x: i32, y: i32, w: i32, h: i32) -> (r: Room)
        requires
            i32::MIN <= x + w <= i32::MAX,
            i32::MIN <= y + h <= i32::MAX,
        ensures
            r.x1 == x,
            r.y1 == y,
            r.x2 == x + w,
            r.y2 == y + h,
    {
        Room { x1: x, y1: y, x2: x + w, y2: y + h }
    }

    /// Overlap test used to keep accepted rooms disjoint.
    pub fn intersect(&self, other: &Room) -> (r: bool)
        ensures
            r == self.spec_intersect(*other),
    {
        self.x1 <= other.x2 && self.x2 >= other.x1 && self.y1 <= other.y2 && self.y2 >= other.y1
    }

    /// Center of the room; start, exit and creature spawns live here.
    pub fn center(&self) -> (c: (i32, i32))
        requires
            self.wf(),
        ensures
            (c.0 as int, c.1 as int) == self.spec_center(),
            self.x1 <= c.0 <= self.x2,
            self.y1 <= c.1 <= self.y2,
            2 * c.0 >= self.x1 + self.x2 - 1,
            2 * c.1 >= self.y1 + self.y2 - 1,
    {
        proof {
            let a = self.x1 + self.x2;
            let b = self.y1 + self.y2;
            assert(self.x1 <= a / 2 <= self.x2 && 2 * (a / 2) >= a - 1) by (nonlinear_arith)
                requires 0 <= self.x1 <= self.x2 && a == self.x1 + self.x2;
            assert(self.y1 <= b / 2 <= self.y2 && 2 * (b / 2) >= b - 1) by (nonlinear_arith)
                requires 0 <= self.y1 <= self.y2 && b == self.y1 + self.y2;
        }
        ((self.x1 + self.x2) / 2, (self.y1 + self.y2) / 2)
    }
}

/// Two disjoint rooms have distinct centers: if the rectangles do not
/// touch, their intervals are separated on some axis, and the midpoints of
/// separated intervals differ. Generation relies on this to keep the start
/// and the exit apart.
pub proof fn lemma_disjoint_rooms_distinct_centers(a: Room, b: Room)
    requires
        a.wf(),
        b.wf(),
        !a.spec_intersect(b),
    ensures
        a.spec_center() != b.spec_center(),
{
    if a.x1 > b.x2 {
        assert(a.spec_center().0 > b.spec_center().0);
    } else if a.x2 < b.x1 {
        assert(a.spec_center().0 < b.spec_center().0);
    } else if a.y1 > b.y2 {
        assert(a.spec_center().1 > b.spec_center().1);
    } else {
        assert(a.y2 < b.y1);
        assert(a.spec_center().1 < b.spec_center().1);
    }
}

} // verus!
