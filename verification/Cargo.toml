[package]
name = "discrec"
version = "0.1.0"
edition = "2021"
publish = false

[dependencies]
anyhow = "*"
chrono = "*"
cpal = "*"
dirs = "*"
flacenc = "*"
hound = "*"
mp3lame-encoder = "*"
parking_lot = "*"
serde = { version = "*", features = ["derive"] }
serde_json = "*"
sysinfo = "*"
