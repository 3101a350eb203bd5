[package]
name = "streamlet"
version = "0.1.0"
edition = "2021"
publish = false

[dependencies]
futures = "*"
tokio = { version = "*", features = ["rt-multi-thread", "time", "macros"] }
async-stream = "*"
