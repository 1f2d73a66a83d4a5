[package]
name = "my_http_client"
version = "0.1.0"
edition = "2021"
publish = false

[dependencies]
http = "1"
bytes = "1"
tokio = { version = "1", features = ["io-util", "time", "sync", "rt", "macros"] }
futures = "0.3"
hyper = { version = "1", features = ["client", "http1"] }
http-body-util = "0.1"
async-trait = "0.1"
lazy_static = "1"
