[package]
name = "tvb"
version = "0.1.0"
edition = "2021"
publish = false

[dependencies]
gfx-hal = "=0.9.0"
winit = "=0.18.1"
specs = "=0.14.3"
nalgebra = "=0.16.14"
serde = { version = "=1.0.229", features = ["derive"] }
serde_yaml = "=0.8.26"
