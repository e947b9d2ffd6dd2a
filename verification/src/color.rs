//! RGBA colors.
//!
//! A color crosses the guest boundary as four bytes r, g, b, a, equivalently
//! as the 32-bit little-endian integer built from them.

use vstd::prelude::*;

verus! {

/// One RGBA color, one byte per channel.
#[derive(Clone, Copy, PartialEq, Eq, Structural, Debug)]
pub struct Color {
    pub r: u8,
    pub g: u8,
    pub b: u8,
    pub a: u8,
}

/// The 32-bit little-endian value of a color: r is the lowest byte.
pub open spec fn spec_color_to_u32(c: Color) -> int {
    c.r + 256 * c.g + 65536 * c.b + 16777216 * c.a
}

impl Color {
    /// An opaque color from its three channels.
    pub fn rgb(r: u8, g: u8, b: u8) -> (c: Color)
        ensures
            c == (Color { r, g, b, a: 255u8 }),
    {
        Color { r, g, b, a: 255 }
    }

    /// A color from all four channels.
    pub fn rgba(r: u8, g: u8, b: u8, a: u8) -> (c: Color)
        ensures
            c == (Color { r, g, b, a }),
    {
        Color { r, g, b, a }
    }

    /// The color whose four little-endian bytes make up `v`.
    pub fn from_u32(v: u32) -> (c: Color)
        ensures
            c.r == v % 256,
            c.g == (v / 256) % 256,
            c.b == (v / 65536) % 256,
            c.a == v / 16777216,
            spec_color_to_u32(c) == v,
    {
        let c = Color {
            r: (v % 256) as u8,
            g: ((v / 256) % 256) as u8,
            b: ((v / 65536) % 256) as u8,
            a: (v / 16777216) as u8,
        };
        proof {
            assert(spec_color_to_u32(c) == v) by (nonlinear_arith)
                requires
                    c.r == v % 256,
                    c.g == (v / 256) % 256,
                    c.b == (v / 65536) % 256,
                    c.a == v / 16777216,
            ;
        }
        c
    }

    /// The 32-bit little-endian value of the color.
    pub fn to_u32(&self) -> (v: u32)
        ensures
            v == spec_color_to_u32(*self),
    {
        self.r as u32 + 256 * self.g as u32 + 65536 * self.b as u32 + 16777216 * self.a as u32
    }

    /// Opaque white.
    pub fn white() -> (c: Color)
        ensures
            c == (Color { r: 255u8, g: 255u8, b: 255u8, a: 255u8 }),
    {
        Color { r: 255, g: 255, b: 255, a: 255 }
    }

    /// Opaque black.
    pub fn black() -> (c: Color)
        ensures
            c == (Color { r: 0u8, g: 0u8, b: 0u8, a: 255u8 }),
    {
        Color { r: 0, g: 0, b: 0, a: 255 }
    }

    /// Opaque blue.
    pub fn blue() -> (c: Color)
        ensures
            c == (Color { r: 0u8, g: 0u8, b: 255u8, a: 255u8 }),
    {
        Color { r: 0, g: 0, b: 255, a: 255 }
    }

    /// Opaque red.
    pub fn red() -> (c: Color)
        ensures
            c == (Color { r: 255u8, g: 0u8, b: 0u8, a: 255u8 }),
    {
        Color { r: 255, g: 0, b: 0, a: 255 }
    }

    /// Opaque green.
    pub fn green() -> (c: Color)
        ensures
            c == (Color { r: 0u8, g: 255u8, b: 0u8, a: 255u8 }),
    {
        Color { r: 0, g: 255, b: 0, a: 255 }
    }
}

} // verus!
