[package]
name = "jamsession"
version = "0.1.0"
edition = "2021"
publish = false

[dependencies]
agent-client-protocol = { version = "=5.0.0", features = ["process", "schemars"] }
chrono = "=0.4.45"
clap = { version = "=4.6.7", features = ["derive"] }
dirs = "=7.0.0"
futures = "=0.3.34"
libc = "=0.2.191"
schemars = { version = "1", features = ["derive"] }
serde = { version = "=1.0.229", features = ["derive"] }
serde_json = "=1.0.154"
thiserror = "=2.0.21"
toasty = "=0.11.0"
toasty-driver-sqlite = "=0.11.0"
tokio = { version = "=1.54.1", features = ["full"] }
tokio-stream = "=0.1.19"
tokio-util = { version = "=0.7.20", features = ["compat"] }
toml = "=1.1.8"
tracing = "=0.1.44"
tracing-appender = "=0.2.5"
tracing-subscriber = { version = "=0.3.23", features = ["env-filter"] }
