//! Simplified world map — continent polygons queried by `is_land(lat, lon)`.
//!
//! The ray-casting polygon test runs in floating point in the application;
//! the library holds the query handle.
use vstd::prelude::*;

verus! {

/// World map query interface.  Zero-sized; all data is compiled into the
/// binary.
pub struct WorldMap;

impl WorldMap {
    pub fn new() -> (w: Self)
        ensures
            w == WorldMap,
    {
        WorldMap
    }
}

} // verus!
