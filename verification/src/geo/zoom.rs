//! Console GIS resolution system — mirrors web GIS zoom levels 0–20.
//!
//! A "Console Pixel Equivalent" (CPE) is the atomic rendering unit; its
//! size depends on the [`RenderMode`].  The ground resolution per zoom level
//! (a floating-point computation) lives with the application.
use vstd::prelude::*;
use crate::render::canvas::TerminalCapability;

verus! {

pub const ZOOM_MIN: u8 = 0;
pub const ZOOM_MAX: u8 = 20;

/// Rendering mode — determines effective pixel density per character cell.
#[derive(Debug, Clone, Copy, PartialEq, Eq, Structural)]
pub enum RenderMode {
    /// One char = 1×1 CPE (compatible with most terminals).
    Block,
    /// One char = 1×2 CPEs via `▀`/`▄` half-block Unicode.
    HalfBlock,
    /// One char = 2×4 CPEs via Unicode braille patterns (`⠿`).
    Braille,
    /// ASCII shading only — VT-100 / legacy terminal compatible.
    Ascii,
}

/// CPE width × height per character cell for each mode.
pub open spec fn cpe_dims(m: RenderMode) -> (u32, u32) {
    match m {
        RenderMode::Block => (1, 1),
        RenderMode::HalfBlock => (1, 2),
        RenderMode::Braille => (2, 4),
        RenderMode::Ascii => (1, 1),
    }
}

impl RenderMode {
    /// Effective CPE dimensions (width, height) per character cell.
    pub fn cpe_per_cell(self) -> (d: (u32, u32))
        ensures
            d == cpe_dims(self),
    {
        match self {
            RenderMode::Block => (1, 1),
            RenderMode::HalfBlock => (1, 2),
            RenderMode::Braille => (2, 4),
            RenderMode::Ascii => (1, 1),
        }
    }

    /// True if the mode requires Unicode support (half-block and braille).
    pub fn requires_unicode(self) -> (b: bool)
        ensures
            b <==> (self == RenderMode::HalfBlock || self == RenderMode::Braille),
    {
        match self {
            RenderMode::HalfBlock | RenderMode::Braille => true,
            _ => false,
        }
    }

    /// True if the mode requires colour support (all but ASCII).
    pub fn requires_colour(self) -> (b: bool)
        ensures
            b <==> self != RenderMode::Ascii,
    {
        match self {
            RenderMode::HalfBlock | RenderMode::Braille | RenderMode::Block => true,
            _ => false,
        }
    }
}

/// Human-readable description of each zoom level.
pub open spec fn zoom_label_text(zoom: u8) -> Seq<char> {
    if zoom == 0 {
        "World overview"@
    } else if zoom == 1 {
        "World (2×)"@
    } else if zoom == 2 {
        "Subcontinental"@
    } else if zoom == 3 {
        "Largest countries"@
    } else if zoom == 4 {
        "Large countries"@
    } else if zoom == 5 {
        "Country / large region"@
    } else if zoom == 6 {
        "Large metro region"@
    } else if zoom == 7 {
        "Small metro region"@
    } else if zoom == 8 {
        "County / district"@
    } else if zoom == 9 {
        "Wide area"@
    } else if zoom == 10 {
        "Neighbourhood"@
    } else if zoom == 11 {
        "City"@
    } else if zoom == 12 {
        "Town / borough"@
    } else if zoom == 13 {
        "Village / suburb"@
    } else if zoom == 14 {
        "Small suburb"@
    } else if zoom == 15 {
        "Streets"@
    } else if zoom == 16 {
        "City block"@
    } else if zoom == 17 {
        "Buildings"@
    } else if zoom == 18 {
        "Building detail"@
    } else if zoom == 19 {
        "Room-scale"@
    } else if zoom == 20 {
        "Sub-metre detail"@
    } else {
        "—"@
    }
}

/// Human-readable label for a zoom level (`—` beyond 20).
pub fn zoom_label(zoom: u8) -> (s: &'static str)
    ensures
        s@ == zoom_label_text(zoom),
{
    match zoom {
        0 => "World overview",
        1 => "World (2×)",
        2 => "Subcontinental",
        3 => "Largest countries",
        4 => "Large countries",
        5 => "Country / large region",
        6 => "Large metro region",
        7 => "Small metro region",
        8 => "County / district",
        9 => "Wide area",
        10 => "Neighbourhood",
        11 => "City",
        12 => "Town / borough",
        13 => "Village / suburb",
        14 => "Small suburb",
        15 => "Streets",
        16 => "City block",
        17 => "Buildings",
        18 => "Building detail",
        19 => "Room-scale",
        20 => "Sub-metre detail",
        _ => "—",
    }
}

/// The render mode the application starts in on a terminal of tier `cap`:
/// half-block where the terminal draws half blocks, plain ASCII otherwise.
pub fn default_render_mode(cap: TerminalCapability) -> (m: RenderMode)
    ensures
        m == (if cap == TerminalCapability::TrueColor || cap == TerminalCapability::Color256
            || cap == TerminalCapability::Ansi8 {
            RenderMode::HalfBlock
        } else {
            RenderMode::Ascii
        }),
{
    if cap.supports_half_block() {
        RenderMode::HalfBlock
    } else {
        RenderMode::Ascii
    }
}

} // verus!
