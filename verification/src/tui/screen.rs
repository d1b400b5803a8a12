//! The screens of the TUI.
use vstd::prelude::*;

verus! {

/// Application view / screen.
#[derive(Debug, Clone, Copy, PartialEq, Eq, Structural)]
pub enum View {
    Splash,
    Menu,
    Globe,
    /// The flat Web Mercator world map.
    FlatMap,
    MarkerList,
    ZoomExplorer,
    Diagnostics,
    Layers,
    Calculator,
    ShapeEditor,
}

} // verus!
