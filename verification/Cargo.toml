[package]
name = "bid"
version = "0.1.0"
edition = "2021"
publish = false

[dependencies]
anyhow = "1"
clap = "2"
textplots = "*"
tokio = { version = "1", features = ["full"] }
yahoo_finance_api = "*"
