[package]
name = "mindustry_net"
version = "0.1.0"
edition = "2021"
publish = false

[dependencies]
base64 = "0.22"
flate2 = "1"
lz4 = "1"
serde = { version = "1", features = ["derive"] }
serde_json = "1"
colored = "2"
tokio = { version = "1", features = ["net", "io-util", "sync", "time", "rt-multi-thread", "macros"] }
