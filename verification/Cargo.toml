[package]
name = "rspamd_mon"
version = "0.1.0"
edition = "2021"
publish = false

[dependencies]
serde_json = "1"
accurate = "*"
clap = { version = "3", features = ["derive"] }
color-eyre = "0.6"
crossterm = "*"
env_logger = "0.10"
log = "0.4"
owo-colors = "*"
privdrop = "*"
rasciigraph = "*"
reqwest = { version = "0.11", default-features = false }
tokio = { version = "1", features = ["rt-multi-thread", "macros", "time", "sync"] }
