[package]
name = "simd_pcg"
version = "0.1.0"
edition = "2021"
publish = false

[dependencies]
getrandom = "0.2"
rand = "0.8"
rand_pcg = "0.3"
