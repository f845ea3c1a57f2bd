[package]
name = "amms"
version = "0.1.0"
edition = "2021"
publish = false

[dependencies]
async-trait = "0.1"
num-bigfloat = "1"
serde = { version = "1", features = ["derive"] }
