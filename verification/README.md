# console-gis

A geographic information system for the terminal, from DEC VT-100 (ASCII,
monochrome) up to 24-bit colour terminals.

## Layout

- `src/` — the verified library (Verus). Every function carries a contract
  that Verus proves:
  - `render/` — terminal capability tiers, the colour/box-drawing downshift
    tables, the pixel canvas, golden-ratio layout, sfumato shading, the
    Fibonacci row split and Bresenham lines;
  - `data/` — a JSON tree, the GeoJSON reader (geometry normalisation,
    features, layers, segments and points) and writer (a shape as a
    one-feature collection that reads back as written), marker symbols and
    the byte form of marker ids;
  - `geo/` — zoom levels and render modes;
  - `tui/` — the shape editor, calculator and marker-overlay state, the key
    handlers of every screen (as state → next state + action) and which of
    them takes a key, saved-session layer plans, and the layout of the
    views: the menu and its word-wrapped descriptions, list scrolling, the
    layer list, the marker table, the vertex list and the zoom ruler;
  - `text.rs` — string building and matching helpers.
- `tests/` — tests of the library.
- `app/` — the terminal program around the library: terminal I/O (ratatui,
  crossterm), the floating-point geography (projections, polygons,
  calculators, the globe renderer), the marker database (sled), reading
  GeoJSON files and the saved session (serde, serde_json).
