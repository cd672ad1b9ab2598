[package]
name = "nahlun_server"
version = "0.1.0"
edition = "2021"
publish = false

[dependencies]
anyhow = "=1.0.104"
axum = "=0.7.9"
axum-extra = { version = "=0.9.6", features = ["cookie"] }
bincode = "=1.3.3"
chrono = "=0.4.45"
coordinate-transformer = "=1.7.0"
dashmap = "=6.2.1"
envy = "=0.4.2"
gltf = "=1.4.1"
moka = { version = "=0.12.16", features = ["future"] }
neo4rs = "=0.8.0"
reqwest = "=0.12.28"
rustc-hash = "=2.1.3"
serde = { version = "=1.0.229", features = ["derive"] }
spade = "=2.15.1"
tokio = { version = "=1.54.1", features = ["full"] }
tower-http = { version = "=0.7.1", features = ["cors"] }
uuid = "=1.29.0"
vec-x = "=0.8.0"
voxel-tiler-core = { version = "=0.3.2", features = ["image"] }
