[package]
name = "ustunet"
version = "0.1.0"
edition = "2021"
publish = false

[dependencies]
futures = "0.3"
log = "0.4"
smoltcp = "0.7"
snafu = "0.6"
tokio = { version = "1", features = ["full"] }
tokio-fd = "0.3"
tokio-util = { version = "0.6", features = ["time"] }
