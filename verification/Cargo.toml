[package]
name = "rustplotlib"
version = "0.1.0"
edition = "2021"
publish = false

[dependencies]
tiny-skia = "0.11"
ab_glyph = "0.2"
pyo3 = { version = "0.22", features = ["abi3-py38"] }
