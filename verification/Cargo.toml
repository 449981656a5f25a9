[package]
name = "coerce"
version = "0.1.0"
edition = "2021"
publish = false

[dependencies]
futures = "0.3"
tokio = { version = "1", default-features = false, features = ["io-util", "net", "rt", "sync", "time"] }
tokio-util = { version = "0.7", default-features = false, features = ["codec"] }
tracing = "0.1"
uuid = "1"
