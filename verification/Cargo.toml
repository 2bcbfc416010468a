[package]
name = "ona_diagnostic"
version = "0.1.0"
edition = "2021"
publish = false

[dependencies]
serde = { version = "1", features = ["derive"] }
serde_json = "1"
pixels = "0.13"
winit = "0.28"
font8x8 = "0.3"
