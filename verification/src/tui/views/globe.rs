//! Globe-view colour fallback.
use vstd::prelude::*;
use crate::tui::views::TermColor;

verus! {

/// ANSI-8 colour of a globe pixel: blue or green when that channel dominates,
/// yellow or cyan for bright mixes, else black or white by mean brightness.
pub open spec fn globe_ansi_colour(rgb: (u8, u8, u8)) -> TermColor {
    let (r, g, b) = rgb;
    if b > r && b > g {
        TermColor::Blue
    } else if g > r && g > b {
        TermColor::Green
    } else if r > 150 && g > 150 {
        TermColor::Yellow
    } else if b > 150 && g > 150 {
        TermColor::Cyan
    } else if (r + g + b) / 3 < 60 {
        TermColor::Black
    } else {
        TermColor::White
    }
}

/// ANSI-8 colour for a globe pixel.
pub fn ansi8_color(rgb: (u8, u8, u8)) -> (c: TermColor)
    ensures
        c == globe_ansi_colour(rgb),
{
    let (r, g, b) = rgb;
    if b > r && b > g {
        return TermColor::Blue;
    }
    if g > r && g > b {
        return TermColor::Green;
    }
    if r > 150 && g > 150 {
        return TermColor::Yellow;
    }
    if b > 150 && g > 150 {
        return TermColor::Cyan;
    }
    let lum = (r as u16 + g as u16 + b as u16) / 3;
    if lum < 60 {
        TermColor::Black
    } else {
        TermColor::White
    }
}

} // verus!
