//! Embedded topographic elevation zones.
//!
//! Elevation tiers: 0 below 300 m, 1 for 300–1500 m, 2 for 1500–4000 m,
//! 3 above 4000 m.  The polygon test itself runs in floating point in the
//! application; the library holds the query handle.
use vstd::prelude::*;

verus! {

/// Topographic elevation query interface.  Zero-sized; all data is compiled
/// into the binary.
pub struct TopoMap;

impl TopoMap {
    pub fn new() -> (t: Self)
        ensures
            t == TopoMap,
    {
        TopoMap
    }
}

} // verus!
