[package]
name = "compute_dispatch"
version = "0.1.0"
edition = "2021"
publish = false

[dependencies]
bytemuck = "1"
wgpu = "0.20"
