[package]
name = "holo_engine"
version = "0.1.0"
edition = "2021"
publish = false

[dependencies]
bytemuck = { version = "1", features = ["derive"] }
serde = { version = "1", features = ["derive"] }
serde_json = "1"
tokio = { version = "1", features = ["rt-multi-thread", "macros", "sync", "time", "net"] }
wgpu = "0.20"
image = { version = "0.25", default-features = false, features = ["png"] }
axum = "0.7"
tower-http = { version = "0.5", features = ["cors", "fs"] }
rand = "0.8"
rand_distr = "0.4"
nalgebra = "0.33"
rayon = "1"
fast-surface-nets = "0.2"
