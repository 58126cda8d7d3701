//! Colours.

use vstd::prelude::*;

verus! {

/// A colour by its red, green and blue parts and its opacity, each from 0
/// to 255.
#[derive(Clone, Copy, Debug, PartialEq, Eq, Structural)]
pub struct OnagreColor {
    pub r: u8,
    pub g: u8,
    pub b: u8,
    pub a: u8,
}

impl OnagreColor {
    pub open spec fn spec_rgb(r: u8, g: u8, b: u8) -> OnagreColor {
        OnagreColor { r, g, b, a: u8::MAX }
    }

    /// The opaque colour with these parts.
    #[verifier::when_used_as_spec(spec_rgb)]
    pub fn rgb(r: u8, g: u8, b: u8) -> (c: OnagreColor)
        ensures
            c == Self::spec_rgb(r, g, b),
    {
        OnagreColor { r, g, b, a: u8::MAX }
    }

    pub fn white() -> (c: OnagreColor)
        ensures
            c == OnagreColor::rgb(255, 255, 255),
    {
        OnagreColor::rgb(255, 255, 255)
    }

    pub fn black() -> (c: OnagreColor)
        ensures
            c == OnagreColor::rgb(0, 0, 0),
    {
        OnagreColor::rgb(0, 0, 0)
    }

    pub fn red() -> (c: OnagreColor)
        ensures
            c == OnagreColor::rgb(255, 0, 0),
    {
        OnagreColor::rgb(255, 0, 0)
    }

    pub fn green() -> (c: OnagreColor)
        ensures
            c == OnagreColor::rgb(0, 255, 0),
    {
        OnagreColor::rgb(0, 255, 0)
    }

    pub fn blue() -> (c: OnagreColor)
        ensures
            c == OnagreColor::rgb(0, 0, 255),
    {
        OnagreColor::rgb(0, 0, 255)
    }
}

} // verus!
