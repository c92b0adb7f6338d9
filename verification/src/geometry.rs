//! Screen geometry in terminal cells.
use vstd::prelude::*;

verus! {

/// A rectangle of terminal cells: `width` columns and `height` rows starting
/// at column `x`, row `y`.
#[derive(Debug, Clone, Copy, PartialEq, Eq, Structural, Default)]
pub struct Rect {
    pub x: u16,
    pub y: u16,
    pub width: u16,
    pub height: u16,
}

/// A terminal cell: column `x`, row `y`.
#[derive(Debug, Clone, Copy, PartialEq, Eq, Structural, Default)]
pub struct Position {
    pub x: u16,
    pub y: u16,
}

impl Position {
    /// The cell at column `x`, row `y`.
    pub fn new(x: u16, y: u16) -> (p: Position)
        ensures
            p == (Position { x, y }),
    {
        Position { x, y }
    }
}

/// `a + b` capped at `u16::MAX`.
pub open spec fn add_u16(a: int, b: int) -> int {
    if a + b > u16::MAX {
        u16::MAX as int
    } else {
        a + b
    }
}

impl Rect {
    /// Whether cell `p` lies inside the rectangle, whose right and bottom
    /// edges are capped at `u16::MAX`.
    pub open spec fn holds(self, p: Position) -> bool {
        self.x <= p.x < add_u16(self.x as int, self.width as int) && self.y <= p.y < add_u16(
            self.y as int,
            self.height as int,
        )
    }

    /// Whether cell `p` lies inside the rectangle.
    pub fn contains(self, p: Position) -> (b: bool)
        ensures
            b == self.holds(p),
    {
        p.x >= self.x && p.x < self.x.saturating_add(self.width) && p.y >= self.y && p.y
            < self.y.saturating_add(self.height)
    }

    /// A rectangle with the given origin and size.
    pub fn new(x: u16, y: u16, width: u16, height: u16) -> (r: Rect)
        ensures
            r == (Rect { x, y, width, height }),
    {
        Rect { x, y, width, height }
    }
}

} // verus!
