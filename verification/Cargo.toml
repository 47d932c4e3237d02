[package]
name = "rust_virtio_gpu"
version = "0.1.0"
edition = "2021"
publish = false

[dependencies]
ash = "0.38"
bitflags = "2"
minifb = "*"
virglrenderer = "*"
winit = "0.30"
