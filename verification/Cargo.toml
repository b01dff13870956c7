[package]
name = "conapp"
version = "0.1.0"
edition = "2021"
publish = false

[dependencies]
regex = "=1.13.1"
regex-syntax = "=0.8.11"
lazy_static = "=1.5.1"
serde = { version = "=1.0.229", features = ["derive"] }
image = { version = "=0.24.9", default-features = false, features = ["png"] }
legion = { version = "=0.4.0", default-features = false }
