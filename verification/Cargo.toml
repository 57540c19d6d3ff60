[package]
name = "relay"
version = "0.1.0"
edition = "2021"
publish = false

[dependencies]
json = "0.12"
tokio = { version = "1", features = ["rt-multi-thread", "macros", "net", "io-util", "sync", "time"] }
time = { version = "0.3", features = ["formatting"] }
reqwest = { version = "0.12", default-features = false }
dotenv = "0.15"
anyhow = "1"
