[package]
name = "rollup_core"
version = "0.1.0"
edition = "2021"
publish = false

[dependencies]
faster-hex = "*"
anyhow = "*"
clap = "*"
serde = { version = "*", features = ["derive"] }
toml = "*"
