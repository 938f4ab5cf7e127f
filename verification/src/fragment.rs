//! Rasterized samples on their way to the depth-tested sink.
use vstd::prelude::*;
use crate::color::Color;

verus! {

/// One rasterized sample: a pixel, its colour and its depth key.
#[derive(Clone, Copy, Debug, PartialEq, Eq, Structural)]
pub struct Fragment {
    /// Pixel column.
    pub x: i32,
    /// Pixel row.
    pub y: i32,
    pub color: Color,
    /// Relative depth key; a smaller key is nearer.
    pub depth: i64,
}

impl Fragment {
    /// A fragment at pixel `(x, y)`.
    pub fn new(x: i32, y: i32, color: Color, depth: i64) -> (f: Fragment)
        ensures
            f == (Fragment { x, y, color, depth }),
    {
        Fragment { x, y, color, depth }
    }
}

} // verus!
