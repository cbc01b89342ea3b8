[package]
name = "consumer_order_info"
version = "0.1.0"
edition = "2021"
publish = false

[dependencies]
cheetah-string = "0.1"
parking_lot = "0.12"
serde = { version = "1", features = ["derive"] }
serde_json = "1"
tracing = "0.1"
