pub mod map;
pub mod globe;
pub mod markers;
pub mod menu;
pub mod zoom_explorer;
pub mod wrap;
pub mod list;
pub mod layers;
pub mod vertices;

use vstd::prelude::*;

verus! {

/// The terminal palette colours the views fall back to below true colour.
#[derive(Debug, Clone, Copy, PartialEq, Eq, Structural)]
pub enum TermColor {
    Black,
    Red,
    Green,
    Yellow,
    Blue,
    Magenta,
    Cyan,
    White,
    DarkGray,
}

} // verus!
