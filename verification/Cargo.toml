[package]
name = "media_mirror"
version = "0.1.0"
edition = "2021"
publish = false

[dependencies]
md5 = "0.7"
chrono = "0.4"
serde = { version = "1", features = ["derive"] }
serde_json = "1"
tokio = { version = "1", features = ["full"] }
async-std = "1"
grammers-client = "0.7"
grammers-session = "0.7"
grammers-tl-types = "0.7"
