//! Command-line arguments: the coordinates of the pixel to sample.

use vstd::prelude::*;

verus! {

/// The pixel to sample.
#[derive(Clone, Copy, Debug, PartialEq, Eq, Structural)]
pub struct Args {
    /// X coordinate of the pixel to sample
    x: u32,
    /// Y coordinate of the pixel to sample
    y: u32,
}

impl Args {
    pub closed spec fn spec_x(&self) -> u32 {
        self.x
    }

    pub closed spec fn spec_y(&self) -> u32 {
        self.y
    }

    /// Arguments naming pixel (`x`, `y`).
    pub fn new(x: u32, y: u32) -> (r: Args)
        ensures
            r.spec_x() == x,
            r.spec_y() == y,
    {
        Args { x, y }
    }

    /// The pixel's coordinates as (x, y).
    pub fn coordinates(&self) -> (r: (u32, u32))
        ensures
            r == (self.spec_x(), self.spec_y()),
    {
        (self.x, self.y)
    }
}

impl Default for Args {
    /// Pixel (100, 100), sampled when no coordinates are given.
    fn default() -> (r: Args)
        ensures
            r.spec_x() == 100,
            r.spec_y() == 100,
    {
        Args { x: 100, y: 100 }
    }
}

} // verus!
