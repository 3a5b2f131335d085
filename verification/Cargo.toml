[package]
name = "vimgen"
version = "0.1.0"
edition = "2021"
publish = false

[dependencies]
anyhow = "*"
dirs = "*"
serde = { version = "*", features = ["derive"] }
serde_with = "*"
serde_yaml = "*"
toml = "*"
