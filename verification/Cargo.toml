[package]
name = "mailsync"
version = "0.1.0"
edition = "2021"
publish = false

[dependencies]
mailparse = "*"
tokio = { version = "1", features = ["rt-multi-thread", "macros", "time", "sync", "io-util", "io-std", "signal"] }
async-channel = "*"
