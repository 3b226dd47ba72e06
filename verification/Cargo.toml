[package]
name = "revolt_core"
version = "0.1.0"
edition = "2021"
publish = false

[dependencies]
regex = "=1.13.1"
querystring = "=1.1.0"
nanoid = "=0.4.0"
rand = "=0.8.8"
base32 = "=0.4.0"
totp-lite = "=2.0.1"
rust-argon2 = "=1.0.1"
ulid = "=1.2.1"
iso8601-timestamp = "=0.2.17"
unicode-segmentation = "=1.13.3"
serde = { version = "=1.0.229", features = ["derive"] }
serde_json = "=1.0.154"
rmp-serde = "=1.3.1"
tokio = { version = "=1.54.1", features = ["sync", "rt", "macros", "time"] }
futures = "=0.3.34"
async-tungstenite = "=0.28.2"
lru_time_cache = "=0.11.11"
lru = "=0.12.5"
log = "=0.4.35"
lapin = { version = "2", default-features = false }
