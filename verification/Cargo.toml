[package]
name = "orderbook"
version = "0.1.0"
edition = "2021"
publish = false

[dependencies]
atty = "0.2"
base64 = "0.22"
clap = { version = "4", features = ["derive"] }
crossbeam-channel = "0.5"
dotenvy = "0.15"
futures-util = "0.3"
rand = "0.8"
rsa = "0.9"
serde_json = "1"
sha2 = "0.10"
tokio = { version = "1", features = ["rt-multi-thread", "macros"] }
tokio-tungstenite = "0.21"
url = "2"
