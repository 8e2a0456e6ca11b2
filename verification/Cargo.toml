[package]
name = "lightbox-render"
version = "0.1.0"
edition = "2021"
publish = false

[dependencies]
blake3 = "1"
half = "2"
rayon = "1"
serde = { version = "1", features = ["derive"] }
tokio = { version = "1", features = ["sync"] }
wgpu = "*"

[dev-dependencies]
serde_json = "1"
