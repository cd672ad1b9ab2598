//! Keys and records of the two-layer tile cache.

pub mod items;
pub mod record;
pub mod lookup;
