[package]
name = "modelmod"
version = "0.1.0"
edition = "2021"
publish = false

[dependencies]
fnv = "1.0.7"
serde = { version = "1", features = ["derive"] }
serde_yaml = "0.9"
lazy_static = "1.4"
