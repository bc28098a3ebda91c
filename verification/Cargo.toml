[package]
name = "crashlab-core"
version = "0.1.0"
edition = "2021"
publish = false

[dependencies]
serde = { version = "1", features = ["derive"] }
serde_json = "1"
hex = "0.4"
flate2 = "1"
chrono = "0.4"
