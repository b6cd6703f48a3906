[package]
name = "forgeiso_engine"
version = "0.3.2"
edition = "2021"
publish = false

[dependencies]
regex = "=1.13.1"
chrono = { version = "=0.4.45", default-features = false, features = ["clock", "std"] }
sha-crypt = "=0.5.0"
shell-words = "=1.1.1"
which = "=6.0.3"
serde = { version = "=1.0.229", features = ["derive"] }
serde_yaml = "=0.9.34"
serde_json = "=1.0.154"
sha2 = "=0.10.9"
walkdir = "=2.5.0"
uuid = { version = "=1.29.0", features = ["v4"] }
tokio = { version = "=1.54.1", features = ["rt-multi-thread", "macros", "process", "fs", "sync", "time", "io-util"] }
reqwest = { version = "=0.12.28", default-features = false, features = ["rustls-tls"] }
clap = { version = "=4.6.7", features = ["derive"] }
anyhow = "=1.0.104"
ratatui = "0.29"
crossterm = "0.28"

[dev-dependencies]
tempfile = "=3.27.0"
