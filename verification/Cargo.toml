[package]
name = "triton-vm"
version = "0.1.0"
edition = "2021"
publish = false

[dependencies]
twenty-first = "*"
anyhow = "1"
get-size = { version = "0.1", features = ["derive"] }
serde = { version = "1", features = ["derive"] }
serde_derive = "1"
ratatui = "*"
tokio = { version = "1", features = ["sync"] }
color-eyre = "0.6"
