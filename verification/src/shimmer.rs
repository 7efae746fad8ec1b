//! Colors of the shimmer animation on terminals without true color.
use vstd::prelude::*;
use crate::insert_history::Color;

verus! {

/// The gray level of a brightness from 0 to 255: dark below 128, gray
/// below 192, white above.
pub open spec fn level_color(level: u8) -> Color {
    if level < 128 {
        Color::DarkGray
    } else if level < 192 {
        Color::Gray
    } else {
        Color::White
    }
}

pub fn color_for_level(level: u8) -> (r: Color)
    ensures
        r == level_color(level),
{
    if level < 128 {
        Color::DarkGray
    } else if level < 192 {
        Color::Gray
    } else {
        Color::White
    }
}

} // verus!
