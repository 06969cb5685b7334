[package]
name = "orderbook_aggregator"
version = "0.1.0"
edition = "2021"
publish = false

[dependencies]
serde_json = "=1.0.151"
serde = { version = "1", features = ["derive"] }
tokio = { version = "=1.53.2", features = ["rt-multi-thread", "macros", "sync", "signal", "net", "time", "io-util"] }
tokio-tungstenite = "=0.30.0"
futures-util = "=0.3.34"
config = "=0.15.27"
