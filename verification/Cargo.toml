[package]
name = "unm"
version = "0.1.0"
edition = "2021"
publish = false

[dependencies]
anyhow = "1"
ringbuf = "0.4"
log = "0.4"
env_logger = "*"
wgpu = "*"
winit = "0.30"
glam = { version = "*", features = ["bytemuck"] }
bytemuck = { version = "1", features = ["derive"] }
image = { version = "*", default-features = false, features = ["png", "jpeg"] }
tokio = { version = "1", features = ["rt-multi-thread", "time", "fs", "macros"] }
pollster = "*"
async-trait = "*"
crossbeam-queue = "*"
spin_sleep = "*"
cpal = "*"
