[package]
name = "trade_wara"
version = "0.1.0"
edition = "2021"
publish = false

[dependencies]
chrono = "0.4"
rdkafka = "*"
serde = { version = "1", features = ["derive"] }
serde_json = "1"
uuid = { version = "1", features = ["v4"] }
