[package]
name = "electron"
version = "0.1.0"
edition = "2021"
publish = false

[dependencies]
faer = "0.19"
reqwest = { version = "0.12", features = ["blocking"] }
serde_json = "1"
serde_yaml = "0.9"
