[package]
name = "potato"
version = "0.1.0"
edition = "2021"
publish = false

[dependencies]
env_logger = "0.10"
phf = { version = "0.11", features = ["macros"] }
pixels = "0.11"
rand = "0.8"
winit = "0.27"
