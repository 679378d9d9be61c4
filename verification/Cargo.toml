[package]
name = "ascii_art"
version = "0.1.0"
edition = "2021"
publish = false

[dependencies]
numpy = "*"
pyo3 = { version = "*", features = ["extension-module", "abi3-py39"] }
