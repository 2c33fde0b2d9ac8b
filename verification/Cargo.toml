[package]
name = "pursuit_core"
version = "0.1.0"
edition = "2021"
publish = false

[dependencies]
tetra = "0.8"
