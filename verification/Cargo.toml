[package]
name = "o1"
version = "0.1.0"
edition = "2021"
publish = false

[dependencies]
rand_xoshiro = "*"

[dev-dependencies]
rand = "*"
rand_chacha = "*"
