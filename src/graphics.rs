use vstd::prelude::*;

verus! {

/// A 24-bit color.
#[derive(Clone, Copy, Debug, PartialEq, Eq, Structural)]
pub struct PixelColor {
    pub r: u8,
    pub g: u8,
    pub b: u8,
}

impl PixelColor {
    pub fn new(r: u8, g: u8, b: u8) -> (c: Self)
        ensures
            c == (PixelColor { r, g, b }),
    {
        PixelColor { r, g, b }
    }
}

} // verus!
