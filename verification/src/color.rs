//! Perceived-brightness classification for cover-art tint colors.

use vstd::prelude::*;

verus! {

/// Whether an RGB color reads as light: its perceived luma
/// (0.2126 R + 0.7152 G + 0.0722 B, computed here in exact tenths of
/// basis points) exceeds 130 of 255.
pub fn is_light_color(r: u8, g: u8, b: u8) -> (light: bool)
    ensures
        light == (2126 * (r as int) + 7152 * (g as int) + 722 * (b as int) > 1300000),
{
    2126 * (r as u32) + 7152 * (g as u32) + 722 * (b as u32) > 1300000
}

} // verus!
