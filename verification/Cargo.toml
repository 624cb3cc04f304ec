[package]
name = "jkterm"
version = "0.1.0"
edition = "2021"
publish = false

[dependencies]
vte = "0.15"
log = "0.4"
env_logger = "0.11"
pollster = "0.3"
portable-pty = "0.8"
winit = "0.30"
wgpu = "0.19"
glyphon = "0.5"
bytemuck = { version = "1", features = ["derive"] }
