[package]
name = "state_search"
version = "0.1.0"
edition = "2021"
publish = false

[dependencies]
base64 = "0.13"
md5 = "0.7"
bs58 = "0.4"
serde = { version = "1", features = ["derive"] }
serde_json = "1"
chrono = "0.4"
