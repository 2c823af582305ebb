[package]
name = "iori"
version = "0.1.0"
edition = "2021"
publish = false

[dependencies]
url = "*"
tokio = { version = "*", features = ["rt-multi-thread", "macros", "fs", "io-util", "sync", "time"] }
clap = { version = "*", features = ["derive"] }
anyhow = "*"
