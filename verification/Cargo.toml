[package]
name = "pakfs"
version = "0.1.0"
edition = "2021"
publish = false

[dependencies]
bevy = { version = "0.12", default-features = false, features = ["bevy_asset"] }
bincode = "1.3"
crc32fast = "1"
serde = { version = "1", features = ["derive"] }
walkdir = "2"
zstd = "0.13"
