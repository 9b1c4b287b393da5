[package]
name = "squrl"
version = "0.1.0"
edition = "2021"
publish = false

[dependencies]
url = "*"
nanoid = "*"
chrono = "*"
serde_json = "*"
serde = { version = "*", features = ["derive"] }
