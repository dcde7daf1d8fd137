[package]
name = "meshtls"
version = "0.1.0"
edition = "2021"
publish = false

[dependencies]
bytes = "1"
futures = "0.3"
ring = "0.16"
rustls = "0.19"
tokio = { version = "1", features = ["io-util", "macros", "net", "rt", "time"] }
tokio-rustls = "0.22"
tower = { version = "0.4", features = ["util"] }
tracing = "0.1"
webpki = "0.21"
