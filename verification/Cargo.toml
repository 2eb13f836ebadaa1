[package]
name = "portly"
version = "0.1.0"
edition = "2021"
publish = false

[dependencies]
clap = { version = "*", features = ["derive"] }
tokio = { version = "*", features = ["rt-multi-thread", "macros", "net", "process"] }
tracing = "*"
tracing-subscriber = "*"
