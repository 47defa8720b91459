[package]
name = "nifti2png"
version = "0.1.0"
edition = "2021"
publish = false

[dependencies]
arrayvec = "0.7"
image = { version = "0.24", default-features = false, features = ["png"] }
pyo3 = { version = "0.18", features = ["auto-initialize"] }
thiserror = "1"
