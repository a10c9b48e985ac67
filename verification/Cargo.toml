[package]
name = "vector3"
version = "0.1.0"
edition = "2021"
publish = false

[dependencies]
num-traits = "*"
serde = { version = "*", features = ["derive"] }
