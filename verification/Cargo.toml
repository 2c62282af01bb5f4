[package]
name = "quarkdrive-webdav"
version = "1.4.0"
edition = "2021"
publish = false

[dependencies]
anyhow = "=1.0.104"
bytes = "=1.12.1"
chrono = "=0.4.45"
clap = { version = "=4.6.7", features = ["derive", "env"] }
dashmap = "=6.2.1"
dav-server = "=0.7.0"
futures-util = "=0.3.34"
md5 = "=0.7.0"
moka = { version = "=0.12.16", features = ["sync"] }
sha1 = "=0.11.0"
signal-hook = "=0.3.18"
signal-hook-tokio = { version = "=0.3.1", features = ["futures-v0_3"] }
tokio = { version = "=1.54.1", features = ["full"] }
tracing = "=0.1.44"
tracing-subscriber = { version = "=0.3.23", features = ["env-filter"] }
url = "=2.5.8"
