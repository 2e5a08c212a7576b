[package]
name = "rustflame"
version = "0.1.0"
edition = "2021"
publish = false

[dependencies]
rand = "0.8"
lodepng = "3"
rgb = "0.8"
nom = "3"
