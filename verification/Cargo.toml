[package]
name = "paint_core"
version = "0.1.0"
edition = "2021"
publish = false

[dependencies]
smallvec = "1"
wgpu = "24"
winit = "0.30"
pollster = "0.4"
