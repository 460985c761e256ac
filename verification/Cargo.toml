[package]
name = "omni"
version = "0.1.0"
edition = "2021"
publish = false

[dependencies]
anyhow = "=1.0.104"
regex = "=1.13.1"
url = "=2.5.8"
semver = "=1.0.28"
serde = { version = "=1.0.229", features = ["derive"] }
serde_json = "=1.0.154"
serde_yaml = "=0.9.34"
dirs = "=5.0.1"
tokio = { version = "=1.54.1", features = ["rt-multi-thread", "macros", "process", "time"] }
clap = { version = "=4.6.7", features = ["derive"] }
thiserror = "=1.0.69"
uuid = { version = "=1.29.1", features = ["v4"] }
tracing = "=0.1.44"
libc = "=0.2.191"
rand = "=0.8.8"
chrono = "=0.4.45"
sha2 = "0.10"
hex = "0.4"
