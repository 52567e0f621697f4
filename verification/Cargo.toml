[package]
name = "chart_raster"
version = "0.1.0"
edition = "2021"
publish = false

[dependencies]
image = { version = "*", default-features = false, features = ["png"] }
base64 = "*"
serde = { version = "*", features = ["derive"] }
serde_json = "*"
