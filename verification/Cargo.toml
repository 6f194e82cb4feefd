[package]
name = "packet_forge"
version = "0.1.0"
edition = "2021"
publish = false

[dependencies]
tokio = { version = "1", features = ["net", "time", "sync", "io-util", "rt", "rt-multi-thread", "macros"] }
socket2 = "0.5"
