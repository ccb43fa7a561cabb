[package]
name = "candybox-gfx"
version = "0.1.0"
edition = "2021"
publish = false

[dependencies]
image = { version = "*", default-features = false, features = ["jpeg", "png"] }
wgpu = "*"
winit = "*"
tokio = { version = "*", features = ["sync"] }
thiserror = "*"
bytemuck = { version = "*", features = ["derive"] }
cgmath = "*"
itertools = "*"
pollster = "*"
