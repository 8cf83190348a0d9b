[package]
name = "calibright"
version = "0.1.0"
edition = "2021"
publish = false

[dependencies]
regex = "1"
tokio = { version = "1", features = ["full"] }
zbus = "*"
notify = "*"
clap = { version = "4", features = ["derive"] }
serde = { version = "1", features = ["derive"] }
toml = "*"
dirs = "*"
futures-util = "*"
env_logger = "*"
log = "*"
