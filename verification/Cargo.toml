[package]
name = "anothercssspritelib"
version = "0.1.0"
edition = "2021"
publish = false

[dependencies]
anyhow = "1"
clap = { version = "4", features = ["derive"] }
image = { version = "0.25", default-features = false, features = ["png", "jpeg", "webp", "gif", "bmp"] }
lightningcss = { version = "1.0.0-alpha", default-features = false }
log = "0.4"
rect_packer = "0.2"
regex = "1"
simple_logger = "5"
walkdir = "2"
