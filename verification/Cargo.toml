[package]
name = "lazy_proxy"
version = "0.1.0"
edition = "2021"
publish = false

[dependencies]
shell-words = "*"
anyhow = "*"
clap = { version = "*", features = ["derive"] }
tokio = { version = "*", features = ["full"] }
tracing = "*"
tracing-subscriber = "*"
