[package]
name = "minigfx"
version = "0.1.0"
edition = "2021"
publish = false

[dependencies]
fontdue = "=0.9.4"
glow = "=0.18.0"
image = { version = "=0.25.10", default-features = false, features = ["png"] }
nalgebra = "=0.35.0"
obj-rs = "*"
rand = "=0.10.3"
