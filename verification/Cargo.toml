[package]
name = "ring"
version = "0.1.0"
edition = "2021"
publish = false

[dependencies]
rand = "=0.8.8"
clap = { version = "=4.6.7", features = ["derive"] }
socket2 = { version = "=0.5.10", features = ["all"] }
crossbeam-channel = "=0.5.17"
signal-hook = "=0.3.18"
anyhow = "=1.0.104"
thiserror = "=1.0.69"
