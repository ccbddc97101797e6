//! Integer grid coordinates: positions, footprint sizes, and the rectangular
//! regions they span. All placement logic works in whole grid cells.

use vstd::prelude::*;

verus! {

/// Bound on coordinate magnitudes and footprint sizes. Keeps every sum and
/// difference of coordinates comfortably inside `i32`.
pub const COORD_LIMIT: i32 = 1_000_000;

/// A grid-local cell position. May be negative (a candidate drop position
/// can start above or left of the grid).
#[derive(Clone, Copy, Debug, PartialEq, Eq, Structural)]
pub struct Pos {
    pub x: i32,
    pub y: i32,
}

/// A footprint: width and height in grid cells, always at least 1 by 1.
#[derive(Clone, Copy, Debug, PartialEq, Eq, Structural)]
pub struct Dimens {
    pub x: i32,
    pub y: i32,
}

/// A rectangle of grid cells: anchor position plus footprint.
#[derive(Clone, Copy, Debug, PartialEq, Eq, Structural)]
pub struct Coords {
    pub pos: Pos,
    pub dimens: Dimens,
}

impl Pos {
    /// A pointer or anchor position within the coordinate bound.
    pub open spec fn wf(self) -> bool {
        &&& -COORD_LIMIT <= self.x <= COORD_LIMIT
        &&& -COORD_LIMIT <= self.y <= COORD_LIMIT
    }

    pub fn new(x: i32, y: i32) -> (r: Pos)
        ensures
            r == (Pos { x, y }),
    {
        Pos { x, y }
    }
}

impl Dimens {
    pub open spec fn wf(self) -> bool {
        &&& 1 <= self.x <= COORD_LIMIT
        &&& 1 <= self.y <= COORD_LIMIT
    }

    pub fn new(x: i32, y: i32) -> (r: Dimens)
        ensures
            r == (Dimens { x, y }),
    {
        Dimens { x, y }
    }

    /// The 1-by-1 footprint.
    pub fn unit() -> (r: Dimens)
        ensures
            r == (Dimens { x: 1, y: 1 }),
    {
        Dimens { x: 1, y: 1 }
    }
}

impl Coords {
    /// A usable region: a real footprint, and an anchor near enough to the
    /// origin that the far edge still fits in `i32`. The anchor is allowed
    /// twice the pointer bound so that a drag candidate computed from any
    /// well-formed pointer is itself well-formed.
    pub open spec fn wf(self) -> bool {
        &&& self.dimens.wf()
        &&& -2 * COORD_LIMIT <= self.pos.x <= 2 * COORD_LIMIT
        &&& -2 * COORD_LIMIT <= self.pos.y <= 2 * COORD_LIMIT
    }

    /// The exclusive right edge of the region.
    pub open spec fn right(self) -> int {
        self.pos.x + self.dimens.x
    }

    /// The exclusive top edge of the region (y grows upward in rows).
    pub open spec fn top(self) -> int {
        self.pos.y + self.dimens.y
    }

    /// Whether the cell at `(x, y)` lies inside this region.
    pub open spec fn contains(self, x: int, y: int) -> bool {
        &&& self.pos.x <= x < self.right()
        &&& self.pos.y <= y < self.top()
    }

    pub fn new(pos: Pos, dimens: Dimens) -> (r: Coords)
        ensures
            r == (Coords { pos, dimens }),
    {
        Coords { pos, dimens }
    }

    /// Whether `p` lies inside this region.
    pub fn contains_pos(&self, p: Pos) -> (r: bool)
        requires
            self.wf(),
            p.wf(),
        ensures
            r == self.contains(p.x as int, p.y as int),
    {
        self.pos.x <= p.x && p.x < self.pos.x + self.dimens.x && self.pos.y <= p.y && p.y
            < self.pos.y + self.dimens.y
    }
}

} // verus!
