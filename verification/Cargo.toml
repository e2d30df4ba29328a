[package]
name = "pwsounddeck"
version = "0.1.0"
edition = "2021"
publish = false

[dependencies]
dashmap = "6"
serde_json = "1"
serde = { version = "1", features = ["derive"] }
log = "0.4"
simplelog = "*"
tokio = { version = "1", features = ["rt-multi-thread", "macros"] }
openaction = "*"
rodio = "*"
rfd = "*"
