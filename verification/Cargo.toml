[package]
name = "parabody"
version = "0.1.0"
edition = "2021"
publish = false

[dependencies]
bytemuck = { version = "1", features = ["derive"] }
env_logger = "0.9"
pollster = "0.2"
serde = { version = "1", features = ["derive"] }
tera = "1"
wgpu = "0.14"
