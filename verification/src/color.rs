//! Eight-bit RGB colours.

use vstd::prelude::*;
use crate::ieee::{truncate, truncated};

verus! {

/// One pixel's colour: red, green and blue, each from 0 to 255.
#[derive(Clone, Copy, Debug, PartialEq, Eq, Structural)]
pub struct Color {
    pub r: u8,
    pub g: u8,
    pub b: u8,
}

/// The colour of a pixel whose ray meets nothing: black.
pub open spec fn background() -> Color {
    Color { r: 0, g: 0, b: 0 }
}

impl Color {
    /// The background colour as a value.
    pub fn background() -> (c: Color)
        ensures
            c == background(),
    {
        Color { r: 0, g: 0, b: 0 }
    }

    /// The colour whose channels are three numbers on the scale from 0 to
    /// 255, given as bit patterns and each cut down to a byte: fractions are
    /// dropped, and what lies off the scale is taken to its nearer end.
    pub fn from_scaled(red: u32, green: u32, blue: u32) -> (c: Color)
        ensures
            c.r == truncated(red),
            c.g == truncated(green),
            c.b == truncated(blue),
    {
        Color { r: truncate(red), g: truncate(green), b: truncate(blue) }
    }
}

/// A test pattern over a 256 by 256 square: red falls with `x`, green rises
/// with `y`, and blue is what `x` has over `y`, or nothing where `y` is the
/// larger.
pub fn hello_world_image(x: u8, y: u8) -> (c: Color)
    ensures
        c.r == 255 - x,
        c.g == y,
        y > x ==> c.b == 0,
        y <= x ==> c.b == x - y,
{
    let y_clamp: u8 = if y > x { x } else { y };
    Color { r: 255 - x, g: y, b: x - y_clamp }
}

} // verus!
