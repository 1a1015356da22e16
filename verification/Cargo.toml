[package]
name = "lqos_control"
version = "0.1.0"
edition = "2021"
publish = false

[dependencies]
anyhow = "1"
nix = { version = "*", features = ["signal", "process", "fs"] }
tokio = { version = "1", features = ["sync", "time"] }
tracing = "0.1"
