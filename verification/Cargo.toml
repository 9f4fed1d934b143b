[package]
name = "hubbub"
version = "0.1.0"
edition = "2021"
publish = false

[dependencies]
ws = "0.9"
serde = { version = "1", features = ["derive"] }
serde_json = "1"
chrono = "0.4"
