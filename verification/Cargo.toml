[package]
name = "secure_chat"
version = "0.1.0"
edition = "2021"
publish = false

[dependencies]
base64 = "=0.22.1"
chacha20poly1305 = "=0.10.1"
chrono = { version = "=0.4.45", features = ["serde"] }
color-eyre = "=0.6.5"
crossterm = "=0.28.1"
ed25519-dalek = { version = "=2.2.0", features = ["rand_core"] }
hkdf = "=0.12.4"
rand = "=0.8.8"
ratatui = { version = "=0.29.0", features = ["unstable-rendered-line-info", "widget-calendar"] }
serde = { version = "=1.0.229", features = ["derive"] }
serde_json = "=1.0.154"
sha2 = "=0.10.9"
time = "=0.3.55"
x25519-dalek = { version = "=2.0.1", features = ["static_secrets"] }
