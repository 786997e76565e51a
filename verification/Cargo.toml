[package]
name = "make"
version = "0.1.0"
edition = "2021"
publish = false

[dependencies]
image = { version = "0.24", default-features = false, features = ["png", "tiff", "jpeg", "gif", "bmp"] }
base64 = "0.21"
uuid = { version = "1", features = ["v4"] }
csv = "1"
toml = "0.5"
