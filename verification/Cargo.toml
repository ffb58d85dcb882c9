[package]
name = "cabidl"
version = "0.1.0"
edition = "2021"
publish = false

[dependencies]
serde_yaml = "0.9"
serde = { version = "1", features = ["derive"] }
regex = "1"
flate2 = "1"
tar = "0.4"
clap = { version = "4", features = ["derive"] }
