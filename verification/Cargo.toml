[package]
name = "riemanifold"
version = "0.1.0"
edition = "2021"
publish = false

[dependencies]
anyhow = "1"
bytemuck = { version = "=1.25.2", features = ["derive"] }
cxx = "=1.0.205"
egui = "=0.34.3"
egui-wgpu = "=0.34.3"
egui-winit = "=0.34.3"
env_logger = "=0.11.11"
glam = "0.30"
image = { version = "=0.25.10", default-features = false, features = ["png"] }
log = "0.4"
pollster = "0.4"
rfd = "=0.17.2"
serde = { version = "1", features = ["derive"] }
serde_json = "1"
thiserror = "2"
wgpu = "=29.0.4"
winit = "=0.30.13"
zip = { version = "=9.2.2", default-features = false, features = ["deflate"] }
