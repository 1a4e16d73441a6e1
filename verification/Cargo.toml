[package]
name = "wcm"
version = "0.1.0"
edition = "2021"
publish = false

[dependencies]
anyhow = "*"
base64 = "*"
clap = { version = "*", features = ["derive"] }
dirs = "*"
path-clean = "*"
serde = { version = "*", features = ["derive"] }
serde_json = "*"
