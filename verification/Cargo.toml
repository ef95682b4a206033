[package]
name = "row666_metroidbrainia"
version = "0.1.0"
edition = "2021"
publish = false

[dependencies]
anyhow = "1"
bytemuck = { version = "1", features = ["derive"] }
cgmath = "0.18"
env_logger = { version = "0.11", default-features = false }
hecs = "0.10"
image = { version = "0.25", default-features = false, features = ["png"] }
rand = "0.8"
serde = { version = "1", features = ["derive"] }
serde_json = "1"
wgpu = { version = "0.20", default-features = false, features = ["wgsl"] }
