[package]
name = "wyvern"
version = "0.1.0"
edition = "2021"
publish = false

[dependencies]
eyre = "*"
ndarray = "*"
num-complex = "*"
num-traits = "*"
numpy = "*"
puruspe = "*"
pyo3 = { version = "*", features = ["eyre"] }
rayon = "*"
