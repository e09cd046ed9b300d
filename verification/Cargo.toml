[package]
name = "carbon"
version = "0.1.0"
edition = "2021"
publish = false

[dependencies]
gltf = "=0.16.0"
rustc_apfloat = "=0.2.3"
anyhow = "=1.0.104"
thiserror = "=1.0.69"
winit = "=0.26.1"
