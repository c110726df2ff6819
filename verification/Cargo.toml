[package]
name = "asteroids"
version = "0.1.0"
edition = "2021"
publish = false

[dependencies]
rand = "0.8"
glam = { version = "0.24", features = ["mint"] }
ggez = { version = "0.9", default-features = false }
