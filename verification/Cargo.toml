[package]
name = "variantplaner_rs"
version = "0.1.0"
edition = "2021"
publish = false

[dependencies]
rustc-hash = "=1.1.0"
polars = { version = "0.35", default-features = false }
pyo3-polars = { version = "0.9", features = ["derive"] }
