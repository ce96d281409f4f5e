[package]
name = "voxel_engine"
version = "0.1.0"
edition = "2021"
publish = false

[dependencies]
android_logger = "0.14"
arboard = "=3.7.0"
bincode = "=1.3.3"
bytemuck = { version = "=1.25.2", features = ["derive"] }
env_logger = "=0.11.11"
glam = "=0.29.3"
image = { version = "=0.25.10", default-features = false, features = ["png"] }
jni = "0.21"
libc = "=0.2.191"
log = "=0.4.35"
ndk-context = "=0.1.1"
noise = "=0.9.0"
pollster = "=1.0.1"
rayon = "=1.12.0"
rfd = "=0.17.2"
serde = { version = "=1.0.229", features = ["derive"] }
wgpu = "=30.0.1"
winit = "=0.30.13"
