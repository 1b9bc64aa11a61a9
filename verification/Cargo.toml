[package]
name = "trading_bot"
version = "0.1.0"
edition = "2021"
publish = false

[dependencies]
bigdecimal = "*"
chrono-tz = "*"
serde = { version = "*", features = ["derive"] }
serde_json = "*"
