//! Settings read from the environment at start-up.

use vstd::prelude::*;

verus! {

/// Connection settings of the graph database and sizes of the cache layers.
#[derive(Clone, Debug)]
pub struct EnvVars {
    pub neo4j_uri: String,
    pub neo4j_user: String,
    pub neo4j_password: String,
    pub neo4j_db: String,
    pub disk_cache_base_path: String,
    pub disk_cache_max_size: u64,
    pub memory_cache_max_size: u64,
}

} // verus!
