[package]
name = "ruccolo"
version = "0.1.0"
edition = "2021"
publish = false

[dependencies]
serde_json = "1"
log = "0.4"
env_logger = "0.10"
pollster = "0.2"
bytemuck = { version = "1", features = ["derive"] }
wgpu = "0.15"
winit = "0.28"
