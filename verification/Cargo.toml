[package]
name = "turn_relay"
version = "0.1.0"
edition = "2021"
publish = false

[dependencies]
hmac = "*"
sha1 = "*"
crc32fast = "*"
tinyjson = "*"
serde = { version = "*", features = ["derive"] }
rand = "*"
tokio = { version = "*", features = ["rt", "sync", "net", "time", "macros"] }
reqwest = { version = "*", default-features = false }
