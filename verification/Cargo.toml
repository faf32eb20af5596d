[package]
name = "nomad"
version = "0.1.0"
edition = "2021"
publish = false

[dependencies]
sha2 = "*"
hex = "*"
reticulum = "*"
tokio = { version = "*", features = ["rt-multi-thread", "sync", "time", "macros"] }
tokio-util = "*"
rmp-serde = "*"
serde = { version = "*", features = ["derive"] }
serde_bytes = "*"
toml = "*"
