[package]
name = "rsched"
version = "0.1.0"
edition = "2021"
publish = false

[dependencies]
chrono = "=0.4.45"
chrono-tz = "=0.10.4"
ulid = "=1.2.1"
dashmap = "=6.2.1"
serde = { version = "=1.0.229", features = ["derive"] }
serde_json = "=1.0.154"
thiserror = "=1.0.69"
anyhow = "=1.0.104"
clap = { version = "=4.6.7", features = ["derive", "env"] }
base64 = "=0.22.1"
rand = "=0.8.8"
parking_lot = "=0.12.5"
tokio = { version = "=1.54.1", features = ["rt-multi-thread", "macros", "process", "io-util", "time", "sync", "signal"] }
tokio-stream = "=0.1.19"
futures = "=0.3.34"
bytes = "=1.12.1"
async-trait = "=0.1.92"
reqwest = { version = "=0.12.28", default-features = false, features = ["json"] }
serde_yaml = "=0.9.34"
libc = "=0.2.191"
tracing = "=0.1.44"
tracing-subscriber = { version = "=0.3.23", features = ["env-filter"] }
lettre = { version = "0.11", default-features = false, features = ["builder", "smtp-transport", "tokio1", "tokio1-rustls-tls"] }
