[package]
name = "raytrace"
version = "0.1.0"
edition = "2021"
publish = false

[dependencies]
rand = "*"
rand_distr = "*"
image = "*"
