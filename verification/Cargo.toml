[package]
name = "forget_me_not"
version = "0.1.0"
edition = "2021"
publish = false

[dependencies]
anyhow = "1"
chrono = "0.4"
clap = { version = "4", features = ["derive"] }
color-eyre = "0.6"
colored = "*"
dirs = "*"
log = "0.4"
rusqlite = "*"
semver = "1"
serde = { version = "1", features = ["derive"] }
serde_json = "1"
toml = "*"
