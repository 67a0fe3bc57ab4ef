[package]
name = "xaynet_coordinator"
version = "0.1.0"
edition = "2021"
publish = false

[dependencies]
sodiumoxide = "*"
tokio = { version = "*", features = ["rt-multi-thread", "macros", "sync", "signal", "time"] }
clap = "*"
futures = "*"
anyhow = "*"
thiserror = "*"
tracing = "*"
tracing-subscriber = "*"
