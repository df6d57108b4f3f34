[package]
name = "station"
version = "0.1.0"
edition = "2021"
publish = false

[dependencies]
ipnet = "2"
tokio = { version = "1", features = ["rt-multi-thread", "net", "sync", "time", "io-util"] }
flume = "*"
default-net = "*"
crossterm = "*"
log = "0.4"
pretty_env_logger = "*"
rand = "0.8"
