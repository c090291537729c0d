[package]
name = "sdf_csg"
version = "0.1.0"
edition = "2021"
publish = false

[dependencies]
pollster = { version = "=0.3.0", features = ["macro"] }
wgpu = { version = "27", default-features = false, features = ["std", "wgsl", "vulkan"] }
winit = { version = "=0.29.15", default-features = false, features = ["rwh_06", "x11"] }
winit_input_helper = "=0.15.3"
