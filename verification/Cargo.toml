[package]
name = "pointrain"
version = "0.1.0"
edition = "2021"
publish = false

[dependencies]
bytes = "=1.12.1"
colorgrad = "=0.6.2"
kiddo = "=5.3.3"
nalgebra = "=0.35.0"
thiserror = "=1.0.69"
