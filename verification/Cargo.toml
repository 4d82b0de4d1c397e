[package]
name = "context_store"
version = "0.1.0"
edition = "2021"
publish = false

[dependencies]
sha2 = "*"
hex = "*"
serde = { version = "*", features = ["derive"] }
serde_json = "*"
chrono = "*"
uuid = { version = "*", features = ["v4"] }
