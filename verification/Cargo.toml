[package]
name = "linux_practice_lab"
version = "0.1.0"
edition = "2021"
publish = false

[dependencies]
rand = "=0.8.8"
anyhow = "=1.0.104"
serde = { version = "=1.0.229", features = ["derive"] }
serde_json = "=1.0.154"
sha2 = "=0.10.9"
hex = "=0.4.3"
zstd = "=0.13.4"
rusqlite = { version = "=0.31.0", features = ["bundled"] }
regex = "1"
