[package]
name = "ray"
version = "0.1.0"
edition = "2021"
publish = false

[dependencies]
image = { version = "0.24", default-features = false, features = ["png"] }
indicatif = { version = "0.17", features = ["rayon"] }
itertools = "0.12"
nalgebra = "0.32"
parry3d = "0.13"
rand = "0.8"
rayon = "1"
