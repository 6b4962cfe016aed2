[package]
name = "raymarch"
version = "0.1.0"
edition = "2021"
publish = false

[dependencies]
vecmath = "1"
fastrand = "2"
image = { version = "0.24", default-features = false, features = ["png"] }
serde = { version = "1", features = ["derive"] }
serde_json = "1"
rhai = "1"
