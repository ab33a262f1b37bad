[package]
name = "identity_gateway"
version = "0.1.0"
edition = "2021"
publish = false

[dependencies]
tokio = { version = "1", features = ["rt-multi-thread", "macros", "net", "time"] }
hyper = { version = "0.14", features = ["server", "client", "http1", "tcp"] }
hyper-tungstenite = "0.11"
futures-util = "0.3"
serde_json = "1"
