[package]
name = "med"
version = "0.1.0"
edition = "2021"
publish = false

[dependencies]
anyhow = "*"
crossterm = { version = "*", features = ["event-stream"] }
ropey = "*"
tokio = { version = "*", features = ["macros", "rt"] }
tokio-stream = "*"
