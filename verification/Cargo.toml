[package]
name = "ebl0"
version = "0.1.0"
edition = "2021"
publish = false

[dependencies]
anyhow = "*"
tokio = { version = "*", features = ["io-util", "io-std", "rt", "rt-multi-thread", "macros"] }
