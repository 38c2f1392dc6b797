[package]
name = "bangumi-rss"
version = "0.1.0"
edition = "2021"
publish = false

[dependencies]
anyhow = "1"
base64 = "0.22"
crossbeam-channel = "0.5"
env_logger = "0.11"
envconfig = "0.11"
log = "0.4"
percent-encoding = "2"
regex = "1"
rouille = "3"
rss = "2"
serde = { version = "1", features = ["derive"] }
serde_json = "1"
ureq = "2"
uuid = { version = "1", features = ["v4", "serde"] }
