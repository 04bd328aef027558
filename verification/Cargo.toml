[package]
name = "poseidon2_m31"
version = "0.1.0"
edition = "2021"
publish = false

[dev-dependencies]
rand_xoshiro = "*"
