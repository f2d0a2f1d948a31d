//! Linear radiance/reflectance triples.
//!
//! As with [`crate::vector::Vector`], the components are scalar bit
//! patterns; the colour arithmetic (blending, gamma encoding, byte
//! quantisation) is floating-point and lives with the rendering front end.

use crate::scalar::Real64;
use vstd::prelude::*;

verus! {

/// A colour in linear space.
#[derive(Debug, Clone, Copy, PartialEq, Eq, Structural)]
pub struct Colour {
    pub r: Real64,
    pub g: Real64,
    pub b: Real64,
}

impl Colour {
    /// Packs three channels into a colour.
    pub fn new(r: Real64, g: Real64, b: Real64) -> (c: Colour)
        ensures
            c == (Colour { r, g, b }),
    {
        Colour { r, g, b }
    }

    /// The red channel.
    pub fn r(&self) -> (r: Real64)
        ensures
            r == self.r,
    {
        self.r
    }

    /// The green channel.
    pub fn g(&self) -> (r: Real64)
        ensures
            r == self.g,
    {
        self.g
    }

    /// The blue channel.
    pub fn b(&self) -> (r: Real64)
        ensures
            r == self.b,
    {
        self.b
    }
}

} // verus!
