[package]
name = "rgh"
version = "0.1.0"
edition = "2021"
publish = false

[dependencies]
async-std = "1"
clap = "2"
indicatif = "0.15"
serde = { version = "1", features = ["derive"] }
serde_json = "1"
surf = "1"
