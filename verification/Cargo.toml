[package]
name = "rusty_tree"
version = "0.1.0"
edition = "2021"
publish = false

[dependencies]
uuid = { version = "1", features = ["v4"] }
winit = "0.28"
pixels = "0.12"
