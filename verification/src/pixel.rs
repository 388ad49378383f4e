//! A pixel position in the output image.

use vstd::prelude::*;

verus! {

/// A pixel coordinate: column and row.
#[derive(Debug, Clone, Copy, PartialEq, Eq, Structural)]
pub struct Pixel {
    pub x: usize,
    pub y: usize,
}

impl Pixel {
    /// Build a pixel position from its column and row.
    pub fn new(x: usize, y: usize) -> (r: Pixel)
        ensures
            r == (Pixel { x, y }),
    {
        Pixel { x, y }
    }
}

} // verus!
