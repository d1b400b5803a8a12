//! Main navigation menu entries.
use vstd::prelude::*;
use crate::tui::screen::View as Screen;
use crate::render::typography::{golden_primary, sub_floor0, GoldenLayout};

verus! {

/// A menu entry: selection key, label, target view, icon and description.
#[derive(Debug, Clone, Copy)]
pub struct MenuItem {
    pub key: char,
    pub label: &'static str,
    pub view: Screen,
    pub icon: &'static str,
    pub desc: &'static str,
}

/// Stateful menu — tracks the highlighted row.
pub struct MenuWidget<'a> {
    pub items: &'a [MenuItem],
    pub selected: usize,
    pub true_color: bool,
}

/// Number of menu entries.
pub const MENU_ITEM_COUNT: usize = 8;

/// Target view of each menu entry, in order.
pub open spec fn menu_view(i: int) -> Screen {
    if i == 0 {
        Screen::Globe
    } else if i == 1 {
        Screen::FlatMap
    } else if i == 2 {
        Screen::MarkerList
    } else if i == 3 {
        Screen::ZoomExplorer
    } else if i == 4 {
        Screen::Diagnostics
    } else if i == 5 {
        Screen::Layers
    } else if i == 6 {
        Screen::Calculator
    } else {
        Screen::ShapeEditor
    }
}

/// Label of each menu entry, in order.
pub open spec fn menu_label(i: int) -> Seq<char> {
    if i == 0 {
        "Globe"@
    } else if i == 1 {
        "World Map"@
    } else if i == 2 {
        "Markers"@
    } else if i == 3 {
        "Zoom Explorer"@
    } else if i == 4 {
        "Terminal Diagnostics"@
    } else if i == 5 {
        "Layers"@
    } else if i == 6 {
        "Calculator"@
    } else {
        "Shape Editor"@
    }
}

/// Icon of each menu entry, in order.
pub open spec fn menu_icon(i: int) -> Seq<char> {
    if i == 0 {
        "◉"@
    } else if i == 1 {
        "▭"@
    } else if i == 2 {
        "◆"@
    } else if i == 3 {
        "⊕"@
    } else if i == 4 {
        "≡"@
    } else if i == 5 {
        "≋"@
    } else if i == 6 {
        "⊞"@
    } else {
        "◈"@
    }
}

/// Description of each menu entry, in order.
pub open spec fn menu_desc(i: int) -> Seq<char> {
    if i == 0 {
        "Rotating 3-D orthographic projection.  Graticule + special parallels.\n\nControls: A/D rotate · ↑↓ tilt · W/S zoom · Space pause · M marker · I import · B bookmark"@
    } else if i == 1 {
        "Flat Web Mercator map.  Pan with arrow keys, zoom with W/S or +/−.\n\nControls: ↑↓←→ pan · W/S zoom · M marker · I import · B bookmark"@
    } else if i == 2 {
        "Browse, edit, and delete geographic annotations.\n\nControls: ↑↓ navigate · E edit · D delete · G go to globe · P go to map · X clear all"@
    } else if i == 3 {
        "Inspect zoom levels 0–20: ground resolution, viewport extent, CPE count."@
    } else if i == 4 {
        "Colour capability, character metrics, effective DPI, render mode."@
    } else if i == 5 {
        "Manage imported GeoJSON layers — toggle visibility, delete, view details.\n\nControls: ↑↓ navigate · Space toggle visibility · D delete · Esc back"@
    } else if i == 6 {
        "Geographic calculators: slippy tile XY, Web Mercator (EPSG:3857), DMS/DDM conversions, haversine distance, bearing, destination point.\n\nAfter computing, press P to place the result as a marker, G to jump to the globe, or M to jump to the map."@
    } else {
        "Interactively define Point, MultiPoint, LineString, MultiLineString, Polygon, or MultiPolygon geometries by entering coordinates one at a time.\n\nExports a valid GeoJSON FeatureCollection that can be re-imported as a layer.\n\nControls: ↑↓/1-6 pick type · Enter start · Tab switch lat/lon · Enter add coord · F finish part · U undo · N next step"@
    }
}

/// The menu entries: keys `1`–`8` for Globe, World Map, Markers, Zoom
/// Explorer, Terminal Diagnostics, Layers, Calculator and Shape Editor.
pub fn menu_items() -> (v: Vec<MenuItem>)
    ensures
        v@.len() == MENU_ITEM_COUNT,
        forall|i: int|
            0 <= i < MENU_ITEM_COUNT ==> {
                &&& #[trigger] v@[i].key == crate::text::digit_char(i + 1)
                &&& v@[i].view == menu_view(i)
                &&& v@[i].label@ == menu_label(i)
                &&& v@[i].icon@ == menu_icon(i)
                &&& v@[i].desc@ == menu_desc(i)
            },
{
    let mut v: Vec<MenuItem> = Vec::new();
    v.push(MenuItem {
        key: '1',
        label: "Globe",
        view: Screen::Globe,
        icon: "◉",
        desc: "Rotating 3-D orthographic projection.  Graticule + special parallels.\n\nControls: A/D rotate · ↑↓ tilt · W/S zoom · Space pause · M marker · I import · B bookmark",
    });
    v.push(MenuItem {
        key: '2',
        label: "World Map",
        view: Screen::FlatMap,
        icon: "▭",
        desc: "Flat Web Mercator map.  Pan with arrow keys, zoom with W/S or +/−.\n\nControls: ↑↓←→ pan · W/S zoom · M marker · I import · B bookmark",
    });
    v.push(MenuItem {
        key: '3',
        label: "Markers",
        view: Screen::MarkerList,
        icon: "◆",
        desc: "Browse, edit, and delete geographic annotations.\n\nControls: ↑↓ navigate · E edit · D delete · G go to globe · P go to map · X clear all",
    });
    v.push(MenuItem {
        key: '4',
        label: "Zoom Explorer",
        view: Screen::ZoomExplorer,
        icon: "⊕",
        desc: "Inspect zoom levels 0–20: ground resolution, viewport extent, CPE count.",
    });
    v.push(MenuItem {
        key: '5',
        label: "Terminal Diagnostics",
        view: Screen::Diagnostics,
        icon: "≡",
        desc: "Colour capability, character metrics, effective DPI, render mode.",
    });
    v.push(MenuItem {
        key: '6',
        label: "Layers",
        view: Screen::Layers,
        icon: "≋",
        desc: "Manage imported GeoJSON layers — toggle visibility, delete, view details.\n\nControls: ↑↓ navigate · Space toggle visibility · D delete · Esc back",
    });
    v.push(MenuItem {
        key: '7',
        label: "Calculator",
        view: Screen::Calculator,
        icon: "⊞",
        desc: "Geographic calculators: slippy tile XY, Web Mercator (EPSG:3857), DMS/DDM conversions, haversine distance, bearing, destination point.\n\nAfter computing, press P to place the result as a marker, G to jump to the globe, or M to jump to the map.",
    });
    v.push(MenuItem {
        key: '8',
        label: "Shape Editor",
        view: Screen::ShapeEditor,
        icon: "◈",
        desc: "Interactively define Point, MultiPoint, LineString, MultiLineString, Polygon, or MultiPolygon geometries by entering coordinates one at a time.\n\nExports a valid GeoJSON FeatureCollection that can be re-imported as a layer.\n\nControls: ↑↓/1-6 pick type · Enter start · Tab switch lat/lon · Enter add coord · F finish part · U undo · N next step",
    });
    v
}

/// Width of the menu's item column for a `width` × `height` area: the golden
/// layout's primary share, at least 24, but leaving 20 columns for the
/// description where the area has them.
pub fn sidebar_width(width: u16, height: u16) -> (w: u16)
    requires
        height <= 0x7fff,
    ensures
        w == vstd::math::min(
            vstd::math::max(golden_primary(width as int), 24),
            sub_floor0(width as int, 20),
        ),
{
    let layout = GoldenLayout::compute(width, height);
    let wide = if layout.primary_cols < 24 { 24 } else { layout.primary_cols };
    let room = width.saturating_sub(20);
    if wide < room { wide } else { room }
}

} // verus!
