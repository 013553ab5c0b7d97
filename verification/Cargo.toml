[package]
name = "webp_converter"
version = "0.1.0"
edition = "2021"
publish = false

[dependencies]
image = { version = "=0.25.10", default-features = false, features = ["jpeg", "png", "gif", "bmp", "tiff"] }
serde = { version = "=1.0.229", features = ["derive"] }
walkdir = "=2.5.0"
webp = { version = "=0.3.1", default-features = false }
