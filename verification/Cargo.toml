[package]
name = "suno_downloader"
version = "0.1.0"
edition = "2021"
publish = false

[dependencies]
chrono = "=0.4.45"
base64 = "=0.22.1"
uuid = { version = "=1.29.0", features = ["v4"] }
serde = { version = "=1.0.229", features = ["derive"] }
serde_json = "=1.0.154"
anyhow = "=1.0.104"
thiserror = "=1.0.69"
reqwest = { version = "=0.12.28", default-features = false, features = ["json", "blocking", "rustls-tls"] }
tokio = { version = "=1.54.1", features = ["fs", "time", "rt", "rt-multi-thread", "macros"] }
walkdir = "=2.5.0"
zip = { version = "=2.6.1", default-features = false, features = ["deflate"] }
tiny_http = "=0.12.0"
dirs = "=5.0.1"
regex = "1"
