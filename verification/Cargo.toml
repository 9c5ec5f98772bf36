[package]
name = "postflop_solver"
version = "0.1.0"
edition = "2021"
publish = false

[dependencies]
bincode = "2"
zstd = "0.13"
rand = "0.8"
