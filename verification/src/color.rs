//! The color value carried from the network side to the actuation side.

use vstd::prelude::*;

verus! {

/// One color for the addressable light source: three 8-bit channels.
#[derive(Clone, Copy, PartialEq, Eq, Structural, Debug)]
pub struct Color {
    pub r: u8,
    pub g: u8,
    pub b: u8,
}

/// Truncation of a protocol integer to one 8-bit channel: the low byte,
/// with no clamping of out-of-range values.
pub open spec fn channel_of_int(x: i32) -> u8 {
    x as u8
}

impl Color {
    /// The color the renderer holds before any command arrives.
    pub fn black() -> (c: Color)
        ensures
            c == (Color { r: 0u8, g: 0u8, b: 0u8 }),
    {
        Color { r: 0, g: 0, b: 0 }
    }

    /// Builds a color from three protocol integers, truncating each to
    /// its low 8 bits.
    pub fn from_ints(r: i32, g: i32, b: i32) -> (c: Color)
        ensures
            c.r == channel_of_int(r),
            c.g == channel_of_int(g),
            c.b == channel_of_int(b),
    {
        Color {
            r: #[verifier::truncate] (r as u8),
            g: #[verifier::truncate] (g as u8),
            b: #[verifier::truncate] (b as u8),
        }
    }
}

} // verus!
