[package]
name = "herald"
version = "0.1.0"
edition = "2021"
publish = false

[dependencies]
serde = { version = "1", features = ["derive"] }
serde_json = "1"
base64 = "0.22"
subtle = "2"
x25519-dalek = { version = "2", features = ["static_secrets"] }
getrandom = "0.2"
dashmap = "6"
uuid = { version = "1", features = ["v4"] }
toml = "0.8"
anyhow = "1"
