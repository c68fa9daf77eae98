[package]
name = "tiny_ping"
version = "0.7.0"
edition = "2021"
publish = false

[dependencies]
socket2 = { version = "0.6", features = ["all"] }
tokio = { version = "1", features = ["net", "time"] }
