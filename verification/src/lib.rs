//! console-gis — a geographic information system for the terminal.
//!
//! The verified core: terminal capability tiers and colour downshifting,
//! the pixel canvas, golden-ratio layout, zoom/render-mode tables, GeoJSON
//! geometry normalisation and the editor and calculator state of the TUI.
//! Floating-point geography, rendering into a terminal and persistence live
//! in the application crate around this library.

pub mod render;
pub mod geo;
pub mod data;
pub mod tui;
pub mod text;
