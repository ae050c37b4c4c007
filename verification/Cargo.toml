[package]
name = "clawdia"
version = "0.1.0"
edition = "2021"
publish = false

[dependencies]
sha2 = "=0.10.9"
hmac = "=0.12.1"
hex = "=0.4.3"
rand = "=0.8.8"
serde = { version = "=1.0.229", features = ["derive"] }
serde_json = "=1.0.154"
serde_yaml = "=0.9.34"
humantime = "=2.4.0"
humantime-serde = "=1.1.1"
tokio = { version = "=1.54.1", features = ["full"] }
tokio-util = "=0.7.20"
async-trait = "=0.1.92"
futures-util = "=0.3.34"
clap = { version = "=4.6.7", features = ["derive", "env"] }
crossterm = { version = "=0.28.1", features = ["event-stream"] }
ratatui = "=0.29.0"
tui-input = "=0.11.1"
tracing = "=0.1.44"
tracing-subscriber = { version = "=0.3.23", features = ["env-filter"] }
tracing-appender = "=0.2.5"
anyhow = "=1.0.104"
thiserror = "=2.0.21"
dotenvy = "=0.15.7"
cedar-policy = "=4.14.1"
tempfile = "=3.27.0"
serde_jcs = "=0.1.0"
dashmap = "6"
