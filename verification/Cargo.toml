[package]
name = "fastclaw"
version = "0.1.0"
edition = "2021"
publish = false

[dependencies]
regex = "=1.13.1"
serde = { version = "=1.0.229", features = ["derive"] }
serde_json = "=1.0.154"
tokio = { version = "=1.54.1", features = ["full"] }
futures = "=0.3.34"
async-trait = "=0.1.92"
chrono = "=0.4.45"
uuid = { version = "=1.29.0", features = ["v4"] }
dirs = "=7.0.0"
fastmind = "=0.1.1"
openai-client-rs = { version = "=0.1.4", features = ["async"] }
anthropic-client-rs = "=0.1.3"
crossterm = "=0.29.0"
ratatui = { version = "=0.30.2", features = ["unstable-rendered-line-info"] }
pulldown-cmark = "=0.13.6"
