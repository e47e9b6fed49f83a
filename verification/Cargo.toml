[package]
name = "graphics"
version = "0.1.0"
edition = "2021"
publish = false

[dependencies]
crc32fast = "=1.5.4"
uuid = { version = "=1.29.0", features = ["v4"] }
wgpu = { version = "=23.0.1", default-features = false, features = ["wgsl", "spirv", "glsl"] }
bytemuck = { version = "=1.25.2", features = ["derive"] }
pollster = "=0.4.0"
glam = "0.29"
