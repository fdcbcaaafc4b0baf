[package]
name = "log_delivery"
version = "0.1.0"
edition = "2021"
publish = false

[dependencies]
capctl = "*"
env_logger = "*"
log = "*"
regex = "*"
tokio = { version = "1", features = ["rt-multi-thread", "sync", "time", "io-util", "net", "macros"] }
