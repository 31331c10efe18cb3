[package]
name = "websocket_producer"
version = "0.1.0"
edition = "2021"
publish = false

[dependencies]
argparse = "0.2"
env_logger = "0.10"
futures = "0.3"
log = "0.4"
tokio = { version = "1", features = ["fs", "io-util", "macros", "net", "rt-multi-thread", "time"] }
tokio-tungstenite = "0.20"
