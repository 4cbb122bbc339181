[package]
name = "katoa"
version = "0.1.0"
edition = "2021"
publish = false

[dependencies]
ahash = "=0.8.12"
anyhow = "=1.0.104"
buildkit-rs-reference = "=0.1.0"
clap = { version = "=4.6.7", features = ["derive", "env"] }
clap_complete = "=4.6.11"
dialoguer = "=0.12.0"
dotenvy = "=0.15.7"
futures = "=0.3.34"
open = "=5.4.5"
owo-colors = { version = "=4.4.0", features = ["supports-colors"] }
regex = "=1.13.1"
serde = { version = "=1.0.229", features = ["derive"] }
serde_json = "=1.0.154"
tempfile = "=3.27.0"
tokio = { version = "=1.54.1", features = ["fs", "io-util", "macros", "process", "rt-multi-thread"] }
url = "=2.5.8"
