[package]
name = "trading_terminal"
version = "0.1.0"
edition = "2021"
publish = false

[dependencies]
chrono = "=0.4.45"
tokio = { version = "=1.53.2", features = ["rt", "sync", "time"] }
