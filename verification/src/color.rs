//! The colour value: three 8-bit channels.

use vstd::prelude::*;

verus! {

/// A colour as red, green and blue channels. Two colours are equal exactly
/// when all three channels are.
#[derive(Clone, Copy, Debug, PartialEq, Eq, Structural, Hash)]
pub struct Rgb {
    pub r: u8,
    pub g: u8,
    pub b: u8,
}

impl Rgb {
    /// The colour with the given channels, taken as they are.
    pub fn new(r: u8, g: u8, b: u8) -> (rgb: Rgb)
        ensures
            rgb == (Rgb { r, g, b }),
    {
        Rgb { r, g, b }
    }

    /// The colour shown when the device reports none.
    pub open spec fn black() -> Rgb {
        Rgb { r: 0, g: 0, b: 0 }
    }
}

} // verus!
