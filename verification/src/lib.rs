//! Verified core of the river-monitoring tile server: cache keys and their
//! on-disk names, the cache record encoding, the tile hierarchy paths used in
//! graph queries, and the binary glTF layout of generated tiles.

pub mod text;
pub mod cache;
pub mod tile;
pub mod env;
