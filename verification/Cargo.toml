[package]
name = "endgame"
version = "0.1.0"
edition = "2021"
publish = false

[dependencies]
anyhow = "1"
grammers-client = "0.11"
grammers-session = "0.11"
log = "0.4"
mime = "0.3"
mime_guess = "2"
rand = "0.8"
regex = "1"
serde = { version = "1", features = ["derive"] }
serde_json = "1"
simple_logger = { version = "5", default-features = false }
tokio = { version = "1", features = ["full"] }
turso = { version = "0.5", default-features = false }
