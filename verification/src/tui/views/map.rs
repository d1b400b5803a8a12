//! Flat-map colour and glyph tables.
use vstd::prelude::*;
use crate::tui::views::TermColor;

verus! {

/// What a map pixel shows, in drawing priority order.
#[derive(Debug, Clone, Copy, PartialEq, Eq, Structural)]
pub enum PixelKind {
    Ocean,
    /// Land with its elevation tier (0–3).
    Land(u8),
    Grid,
    Equator,
    Tropic,
    Polar,
}

/// Map colour of each pixel kind.
pub open spec fn kind_colour(k: PixelKind) -> (u8, u8, u8) {
    match k {
        PixelKind::Ocean => (10, 30, 80),
        PixelKind::Land(t) => if t == 0 {
            (34, 85, 34)
        } else if t == 1 {
            (70, 110, 40)
        } else if t == 2 {
            (110, 90, 60)
        } else {
            (200, 200, 210)
        },
        PixelKind::Grid => (30, 55, 90),
        PixelKind::Equator => (200, 170, 0),
        PixelKind::Tropic => (180, 100, 20),
        PixelKind::Polar => (80, 130, 160),
    }
}

/// ASCII glyph of each pixel kind (VT-100 compatible, no colour needed).
pub open spec fn kind_glyph(k: PixelKind) -> char {
    match k {
        PixelKind::Ocean => ' ',
        PixelKind::Land(t) => if t == 0 {
            ','
        } else if t == 1 {
            ':'
        } else if t == 2 {
            '^'
        } else {
            '#'
        },
        PixelKind::Grid => '.',
        PixelKind::Equator => '=',
        PixelKind::Tropic => '-',
        PixelKind::Polar => '~',
    }
}

/// RGB colour of a map pixel.
pub fn kind_rgb(k: PixelKind) -> (c: (u8, u8, u8))
    ensures
        c == kind_colour(k),
{
    match k {
        PixelKind::Ocean => (10, 30, 80),
        PixelKind::Land(0) => (34, 85, 34),
        PixelKind::Land(1) => (70, 110, 40),
        PixelKind::Land(2) => (110, 90, 60),
        PixelKind::Land(_) => (200, 200, 210),
        PixelKind::Grid => (30, 55, 90),
        PixelKind::Equator => (200, 170, 0),
        PixelKind::Tropic => (180, 100, 20),
        PixelKind::Polar => (80, 130, 160),
    }
}

/// ASCII character for a pixel kind.
pub fn kind_ascii(k: PixelKind) -> (c: char)
    ensures
        c == kind_glyph(k),
{
    match k {
        PixelKind::Ocean => ' ',
        PixelKind::Land(0) => ',',
        PixelKind::Land(1) => ':',
        PixelKind::Land(2) => '^',
        PixelKind::Land(_) => '#',
        PixelKind::Grid => '.',
        PixelKind::Equator => '=',
        PixelKind::Tropic => '-',
        PixelKind::Polar => '~',
    }
}

/// Best-effort ANSI-8 colour for a map RGB value: snow white, gold and
/// orange yellow, polar cyan, then the dominant channel, else black or grey.
pub open spec fn map_ansi_colour(rgb: (u8, u8, u8)) -> TermColor {
    let (r, g, b) = rgb;
    if r > 180 && g > 180 && b > 180 {
        TermColor::White
    } else if r > 150 && g > 130 && b < 60 {
        TermColor::Yellow
    } else if r > 100 && g > 60 && b < 50 {
        TermColor::Yellow
    } else if b < 100 && g > 100 && r < 100 {
        TermColor::Cyan
    } else if b > r && b > g {
        TermColor::Blue
    } else if g > r && g > b {
        TermColor::Green
    } else if r > g && r > b {
        TermColor::Red
    } else if (r + g + b) / 3 < 40 {
        TermColor::Black
    } else {
        TermColor::DarkGray
    }
}

/// Best-effort ANSI-8 colour approximation for a map RGB value.
pub fn ansi_color(rgb: (u8, u8, u8)) -> (c: TermColor)
    ensures
        c == map_ansi_colour(rgb),
{
    let (r, g, b) = rgb;
    if r > 180 && g > 180 && b > 180 {
        return TermColor::White;
    }  // snow/ice (tier 3)
    if r > 150 && g > 130 && b < 60 {
        return TermColor::Yellow;
    }  // equator / gold
    if r > 100 && g > 60 && b < 50 {
        return TermColor::Yellow;
    }  // tropics (orange)
    if b < 100 && g > 100 && r < 100 {
        return TermColor::Cyan;
    }  // polar
    if b > r && b > g {
        return TermColor::Blue;
    }  // ocean
    if g > r && g > b {
        return TermColor::Green;
    }  // land (tiers 0–1)
    if r > g && r > b {
        return TermColor::Red;
    }  // brownish (tier 2)
    let lum = (r as u16 + g as u16 + b as u16) / 3;
    if lum < 40 {
        TermColor::Black
    } else {
        TermColor::DarkGray
    }
}

} // verus!
