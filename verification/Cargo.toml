[package]
name = "owmods_core"
version = "0.1.0"
edition = "2021"
publish = false

[dependencies]
anyhow = "=1.0.104"
glob = "=0.3.4"
log = "=0.4.34"
serde_json = "=1.0.154"
tokio = { version = "=1.54.1", features = ["process", "rt", "sync"] }
version-compare = "=0.1.1"
