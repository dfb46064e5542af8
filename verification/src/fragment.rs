//! Fragments: candidate pixel contributions awaiting the depth test.

use vstd::prelude::*;

verus! {

use crate::fixed::Fx;
use crate::color::Color;

/// One candidate contribution to a pixel: integer screen position, the
/// triangle's flat-shaded color, and the interpolated depth.
#[derive(Clone, Copy, Debug, PartialEq, Eq, Structural)]
pub struct Fragment {
    pub x: i32,
    pub y: i32,
    pub color: Color,
    pub depth: Fx,
}

impl Fragment {
    pub fn new(x: i32, y: i32, color: Color, depth: Fx) -> (f: Fragment)
        ensures
            f.x == x,
            f.y == y,
            f.color == color,
            f.depth == depth,
    {
        Fragment { x, y, color, depth }
    }
}

} // verus!
