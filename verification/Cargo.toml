[package]
name = "multihawk"
version = "0.1.0"
edition = "2021"
publish = false

[dependencies]
bincode = "1"
pyo3 = { version = "0.23", features = ["extension-module"] }
rand = "0.9"
rand_distr = "0.5"
rand_pcg = { version = "0.9", features = ["serde"] }
serde = { version = "1", features = ["derive"] }
