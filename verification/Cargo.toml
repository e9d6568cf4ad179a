[package]
name = "edge_drawer"
version = "0.1.0"
edition = "2021"
publish = false

[dependencies]
clap = "2.34"
image = { version = "*", default-features = false, features = ["png", "jpeg"] }
imageproc = { version = "*", default-features = false }
serde = { version = "1", features = ["derive"] }
serde_json = "1"
svg = "*"
