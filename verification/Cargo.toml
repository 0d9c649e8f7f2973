[package]
name = "native-tor"
version = "0.1.0"
edition = "2021"
publish = false

[dependencies]
anyhow = "1"
futures = "0.3"
log = "0.4"
tokio = { version = "1", features = ["rt", "net", "io-util", "macros", "sync"] }
tor-cell = "*"
