[package]
name = "garage_ray"
version = "0.1.0"
edition = "2021"
publish = false

[dependencies]
rand = "0.7"
cgmath = "0.17"
image = "0.23"
rayon = "1"
