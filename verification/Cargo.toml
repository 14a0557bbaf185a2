[package]
name = "rust_zero"
version = "0.1.0"
edition = "2021"
publish = false

[dependencies]
http = "0.2"
jsonwebtoken = "9"
serde_json = "1"
clap = { version = "4", features = ["derive"] }
