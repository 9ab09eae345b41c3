[package]
name = "vox3d"
version = "0.1.0"
edition = "2021"
publish = false

[dependencies]
bytemuck = { version = "1", features = ["derive"] }
cgmath = "0.18"
noise = "0.8"
pollster = "0.3"
wgpu = "0.16"
wgpu_glyph = "0.20"
winit = "0.28"
