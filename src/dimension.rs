use vstd::prelude::*;

verus! {

/// Largest coordinate or extent, in pixels, that a layout may be resolved against.
pub const MAX_COORD: usize = 65535;

/// An axis-aligned rectangle in device pixels.
#[derive(Debug, Clone, Copy, PartialEq, Eq)]
pub struct Dimension {
    pub x: usize,
    pub y: usize,
    pub width: usize,
    pub height: usize,
}

impl Dimension {
    /// The all-zero rectangle that unresolved elements carry.
    pub fn zero() -> (r: Dimension)
        ensures
            r.x == 0 && r.y == 0 && r.width == 0 && r.height == 0,
    {
        Dimension { x: 0, y: 0, width: 0, height: 0 }
    }

    /// Every field is at most `MAX_COORD`.
    pub open spec fn bounded(self) -> bool {
        self.x <= MAX_COORD && self.y <= MAX_COORD && self.width <= MAX_COORD && self.height
            <= MAX_COORD
    }

    /// The rectangle lies inside the addressable area `[0, MAX_COORD]` on both axes.
    pub open spec fn fits(self) -> bool {
        self.x + self.width <= MAX_COORD && self.y + self.height <= MAX_COORD
    }
}

impl Default for Dimension {
    fn default() -> (r: Dimension)
        ensures
            r.x == 0 && r.y == 0 && r.width == 0 && r.height == 0,
    {
        Dimension::zero()
    }
}

} // verus!
