[package]
name = "asteroids_core"
version = "0.1.0"
edition = "2021"
publish = false

[dependencies]
glutin = "=0.28.0"
image = "=0.25.10"
luminance = "=0.47.0"
luminance-derive = "=0.10.0"
luminance-glutin = "=0.14.1"
ultraviolet = "=0.10.0"
