[package]
name = "llmman_launch"
version = "0.1.0"
edition = "2021"
publish = false

[dependencies]
anyhow = "1"
base64 = "0.22"
clap = { version = "4", features = ["derive"] }
dirs = "6"
serde_json = "1"
toml_edit = "0.22"

[dev-dependencies]
toml = "0.8"
