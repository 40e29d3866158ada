[package]
name = "lowrank"
version = "0.1.0"
edition = "2021"
publish = false

[dependencies]
ndarray = "=0.17.2"
ndarray-linalg = "=0.18.1"
openblas-src = { version = "=0.10.16", features = ["system"] }
serde = { version = "=1.0.229", features = ["derive"] }

[dev-dependencies]
ndarray-rand = "=0.16.0"
