[package]
name = "tokio_chat"
version = "0.1.0"
edition = "2021"
publish = false

[dependencies]
tokio = { version = "1", features = ["rt-multi-thread", "macros", "net", "io-util", "io-std", "sync", "time"] }
hdrhistogram = { version = "7", default-features = false }
socket2 = "0.5"
