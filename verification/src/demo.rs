//! Selection tables of the text-editor demo application.
//!
//! The demo lets the user pick a justification, a color and a font size
//! from small button groups; these functions map the selected index to the
//! value it stands for. The UI toolkit that renders the buttons is an
//! outside collaborator.

use vstd::prelude::*;

use crate::color::Color;
use crate::framebuf::Font;

verus! {

/// Horizontal text justification.
#[derive(Clone, Copy, PartialEq, Eq, Structural, Debug)]
pub enum TextJustification {
    Left,
    Center,
    Right,
}

/// The justification the selector index stands for: 0 left, 1 center,
/// anything else right.
pub fn get_justif(selected: usize) -> (r: TextJustification)
    ensures
        selected == 0 ==> r == TextJustification::Left,
        selected == 1 ==> r == TextJustification::Center,
        selected >= 2 ==> r == TextJustification::Right,
{
    match selected {
        0 => TextJustification::Left,
        1 => TextJustification::Center,
        _ => TextJustification::Right,
    }
}

/// The text color the selector index stands for: 0 white, 1 blue,
/// anything else red.
pub fn get_color(selected: usize) -> (r: Color)
    ensures
        selected == 0 ==> r == (Color { r: 255u8, g: 255u8, b: 255u8, a: 255u8 }),
        selected == 1 ==> r == (Color { r: 0u8, g: 0u8, b: 255u8, a: 255u8 }),
        selected >= 2 ==> r == (Color { r: 255u8, g: 0u8, b: 0u8, a: 255u8 }),
{
    match selected {
        0 => Color::white(),
        1 => Color::blue(),
        _ => Color::red(),
    }
}

/// The font the selector index stands for: the 12-pixel face for 0, the
/// 24-pixel face otherwise.
pub fn get_font(selected: usize) -> (r: Font)
    ensures
        selected == 0 ==> r == (Font { char_w: 6u32, char_h: 12u32 }),
        selected >= 1 ==> r == (Font { char_w: 12u32, char_h: 24u32 }),
{
    if selected == 0 {
        Font { char_w: 6, char_h: 12 }
    } else {
        Font { char_w: 12, char_h: 24 }
    }
}

} // verus!
