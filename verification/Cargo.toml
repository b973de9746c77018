[package]
name = "tape"
version = "0.1.0"
edition = "2021"
publish = false

[dependencies]
symphonia = "*"
cpal = "*"
parking_lot = "*"
serde = { version = "*", features = ["derive"] }
serde_json = "*"
clap = { version = "*", features = ["derive"] }
dirs = "*"
anyhow = "*"
thiserror = "*"
tracing = "*"
tracing-subscriber = "*"
