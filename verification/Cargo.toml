[package]
name = "raytracer"
version = "0.1.0"
edition = "2021"
publish = false

[dependencies]
almost = "0.2"
image = { version = "0.25", default-features = false, features = ["png", "rayon"] }
nalgebra = "0.33"
rand = "0.8"
rayon = "1"
rayon-progress = "*"
