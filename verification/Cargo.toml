[package]
name = "daft_image"
version = "0.1.0"
edition = "2021"
publish = false

[dependencies]
arrow2 = { version = "0.17", default-features = false }
image = { version = "0.24", default-features = false, features = ["png", "jpeg", "tiff", "gif", "bmp"] }
