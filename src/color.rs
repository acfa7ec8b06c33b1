//! 8-bit colours with and without an alpha channel.
use vstd::prelude::*;

verus! {

/// Opaque colour with 8-bit channels.
#[derive(Clone, Copy, Debug, PartialEq, Eq, Structural, PartialOrd, Ord, Hash)]
pub struct ColorRGB {
    pub r: u8,
    pub g: u8,
    pub b: u8,
}

impl ColorRGB {
    pub fn new(r: u8, g: u8, b: u8) -> (c: ColorRGB)
        ensures
            c == (ColorRGB { r, g, b }),
    {
        ColorRGB { r, g, b }
    }

    pub fn white() -> (c: ColorRGB)
        ensures
            c == (ColorRGB { r: 255, g: 255, b: 255 }),
    {
        ColorRGB::new(255, 255, 255)
    }

    pub fn black() -> (c: ColorRGB)
        ensures
            c == (ColorRGB { r: 0, g: 0, b: 0 }),
    {
        ColorRGB::new(0, 0, 0)
    }
}

impl Default for ColorRGB {
    fn default() -> (c: ColorRGB)
        ensures
            c == (ColorRGB { r: 0, g: 0, b: 0 }),
    {
        ColorRGB::black()
    }
}

/// Colour with 8-bit channels and an alpha channel; alpha 0 is an empty voxel.
#[derive(Clone, Copy, Debug, PartialEq, Eq, Structural, PartialOrd, Ord, Hash)]
pub struct ColorRGBA {
    pub r: u8,
    pub g: u8,
    pub b: u8,
    pub a: u8,
}

impl ColorRGBA {
    /// The fully transparent colour that marks an empty voxel.
    pub open spec fn spec_empty() -> ColorRGBA {
        ColorRGBA { r: 0, g: 0, b: 0, a: 0 }
    }

    pub fn new(r: u8, g: u8, b: u8, a: u8) -> (c: ColorRGBA)
        ensures
            c == (ColorRGBA { r, g, b, a }),
    {
        ColorRGBA { r, g, b, a }
    }

    pub fn empty() -> (c: ColorRGBA)
        ensures
            c == ColorRGBA::spec_empty(),
    {
        ColorRGBA::new(0, 0, 0, 0)
    }

    /// A colour is empty when it is fully transparent, whatever its RGB part.
    pub fn is_empty(&self) -> (r: bool)
        ensures
            r == (self.a == 0),
    {
        self.a == 0
    }

    pub fn white() -> (c: ColorRGBA)
        ensures
            c == (ColorRGBA { r: 255, g: 255, b: 255, a: 255 }),
    {
        ColorRGBA::new(255, 255, 255, 255)
    }

    pub fn black() -> (c: ColorRGBA)
        ensures
            c == (ColorRGBA { r: 0, g: 0, b: 0, a: 255 }),
    {
        ColorRGBA::new(0, 0, 0, 255)
    }

    /// The same RGB part with another alpha.
    pub fn with_alpha(&self, a: u8) -> (c: ColorRGBA)
        ensures
            c == (ColorRGBA { r: self.r, g: self.g, b: self.b, a }),
    {
        ColorRGBA { r: self.r, g: self.g, b: self.b, a }
    }

    pub fn player1() -> (c: ColorRGBA)
        ensures
            c == (ColorRGBA { r: 240, g: 0, b: 0, a: 255 }),
    {
        ColorRGBA::new(240, 0, 0, 255)
    }

    pub fn player2() -> (c: ColorRGBA)
        ensures
            c == (ColorRGBA { r: 0, g: 0, b: 240, a: 255 }),
    {
        ColorRGBA::new(0, 0, 240, 255)
    }
}

impl Default for ColorRGBA {
    /// Opaque black.
    fn default() -> (c: ColorRGBA)
        ensures
            c == (ColorRGBA { r: 0, g: 0, b: 0, a: 255 }),
    {
        ColorRGBA::black()
    }
}

} // verus!
