[package]
name = "caesium"
version = "0.1.0"
edition = "2021"
publish = false

[dependencies]
bytes = "1"
kamadak-exif = "*"
infer = "*"
image = { version = "*", default-features = false, features = ["tiff"] }
tiff = "*"
