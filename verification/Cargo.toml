[package]
name = "render_sandbox"
version = "0.1.0"
edition = "2021"
publish = false

[dependencies]
wgpu = { version = "=22.1.0", default-features = false, features = ["wgsl"] }
wgpu-types = "=22.0.0"
image = { version = "=0.25.10", default-features = false, features = ["png", "jpeg", "bmp"] }
gltf = { version = "=1.4.1", default-features = false, features = ["import", "utils", "names"] }
cgmath = "=0.18.0"
bytemuck = "=1.25.2"
futures = "=0.3.34"
log = "=0.4.34"
env_logger = { version = "=0.11.11", default-features = false }
