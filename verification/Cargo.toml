[package]
name = "futuresdr"
version = "0.1.0"
edition = "2021"
publish = false

[dependencies]
anyhow = "1"
bytemuck = "1"
futures = "0.3"
vulkano = "0.25"
vulkano-shaders = "0.25"
wgpu = "0.12"
