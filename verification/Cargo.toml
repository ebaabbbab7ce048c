[package]
name = "claude_code_sync"
version = "0.1.0"
edition = "2021"
publish = false

[dependencies]
anyhow = "1"
chrono = "0.4"
colored = "2"
dirs = "5"
inquire = "0.7"
log = "0.4"
serde_json = "1"
