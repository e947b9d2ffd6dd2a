//! The active UI stylesheet surfaced to guests.
//!
//! Guests receive the stylesheet as a fixed record through the guest memory
//! bridge, so that every application draws with the same palette.

use vstd::prelude::*;

use crate::color::Color;

verus! {

/// The fixed palette record handed to every guest.
#[derive(Clone, Copy, PartialEq, Eq, Structural, Debug)]
pub struct StyleSheet {
    pub background: Color,
    pub element: Color,
    pub frame: Color,
    pub text: Color,
}

impl StyleSheet {
    /// The default palette: dark background, light text.
    pub fn new() -> (s: StyleSheet)
        ensures
            s == StyleSheet::spec_default(),
    {
        StyleSheet {
            background: Color { r: 32, g: 32, b: 32, a: 255 },
            element: Color { r: 68, g: 68, b: 68, a: 255 },
            frame: Color { r: 136, g: 136, b: 136, a: 255 },
            text: Color { r: 255, g: 255, b: 255, a: 255 },
        }
    }

    /// The default palette.
    pub open spec fn spec_default() -> StyleSheet {
        StyleSheet {
            background: Color { r: 32u8, g: 32u8, b: 32u8, a: 255u8 },
            element: Color { r: 68u8, g: 68u8, b: 68u8, a: 255u8 },
            frame: Color { r: 136u8, g: 136u8, b: 136u8, a: 255u8 },
            text: Color { r: 255u8, g: 255u8, b: 255u8, a: 255u8 },
        }
    }
}

} // verus!
