//! Tile addressing (hierarchy paths, source URLs, pixel positions) and the
//! binary glTF layout of generated tiles.

pub mod address;
pub mod glb;
pub mod zoom;
