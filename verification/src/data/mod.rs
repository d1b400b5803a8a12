pub mod geojson;
pub mod json;
pub mod export;
pub mod markers;
pub mod topo;
pub mod world_map;
