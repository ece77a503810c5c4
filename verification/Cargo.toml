[package]
name = "arti_bridge"
version = "0.1.0"
edition = "2021"
publish = false

[dependencies]
serde_json = "1"
tokio = { version = "1", features = ["rt-multi-thread", "io-util", "net", "time"] }
tokio-rustls = "*"
rustls = "*"
webpki-roots = "*"
reqwest = { version = "*", default-features = false, features = ["socks", "rustls-tls"] }
