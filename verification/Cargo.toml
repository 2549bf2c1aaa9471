[package]
name = "frustum"
version = "0.1.0"
edition = "2021"
publish = false

[dependencies]
bytemuck = { version = "1", features = ["derive"] }
glam = "0.29"
image = { version = "0.25", default-features = false, features = ["png"] }
log = "0.4"
pollster = "0.4"
serde = { version = "1", features = ["derive"] }
serde_json = "1"
thiserror = "2"
wgpu = "24"
