//! Opaque 8-bit RGB colours.

use vstd::prelude::*;

verus! {

/// An opaque colour with 8-bit red, green and blue channels.
#[derive(Clone, Copy, Debug, PartialEq, Eq, Structural)]
pub struct Color {
    pub r: u8,
    pub g: u8,
    pub b: u8,
}

impl Color {
    /// The colour with the given channels.
    pub fn rgb8(r: u8, g: u8, b: u8) -> (color: Color)
        ensures
            color == (Color { r, g, b }),
    {
        Color { r, g, b }
    }

    /// Pure black, the colour of a blank cell.
    pub open spec fn spec_black() -> Color {
        Color { r: 0, g: 0, b: 0 }
    }

    /// Pure white, the colour a fresh tile paints with.
    pub open spec fn spec_white() -> Color {
        Color { r: 255, g: 255, b: 255 }
    }

    #[verifier::when_used_as_spec(spec_black)]
    pub fn black() -> (color: Color)
        ensures
            color == Color::spec_black(),
    {
        Color { r: 0, g: 0, b: 0 }
    }

    #[verifier::when_used_as_spec(spec_white)]
    pub fn white() -> (color: Color)
        ensures
            color == Color::spec_white(),
    {
        Color { r: 255, g: 255, b: 255 }
    }

    /// The channels as a `(red, green, blue)` triple.
    pub fn as_rgb8(&self) -> (channels: (u8, u8, u8))
        ensures
            channels == (self.r, self.g, self.b),
    {
        (self.r, self.g, self.b)
    }
}

} // verus!
