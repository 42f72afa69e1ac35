[package]
name = "epick_core"
version = "0.1.0"
edition = "2021"
publish = false

[dependencies]
anyhow = "1"
dirs = "5"
ron = "0.8"
serde = { version = "1", features = ["derive"] }
