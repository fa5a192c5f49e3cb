[package]
name = "chip8"
version = "0.1.0"
edition = "2021"
publish = false

[dependencies]
rand = "=0.8.8"
winit = { version = "=0.28.7", default-features = false, features = ["x11"] }
wgpu = "=0.16.3"
rfd = "0.11"
pollster = "=0.3.0"
bytemuck = { version = "=1.25.2", features = ["derive"] }
