[package]
name = "backend_rust"
version = "0.25.0"
edition = "2021"
publish = false

[dependencies]
zstd = "0.13"
pyo3 = { version = "0.25", features = ["extension-module", "abi3-py311"] }
pyo3-ffi = { version = "0.25", features = ["extension-module", "abi3-py311"] }
