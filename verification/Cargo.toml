[package]
name = "uot"
version = "0.1.0"
edition = "2021"
publish = false

[dependencies]
futures = "0.3"
log = "0.4"
shadowsocks = { version = "1", default-features = false }
tokio = { version = "1", features = ["io-util", "macros", "net", "rt", "sync", "time"] }
