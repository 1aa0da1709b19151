[package]
name = "moq_secure"
version = "0.1.0"
edition = "2021"
publish = false

[dependencies]
sha2 = "=0.10.9"
chacha20poly1305 = "=0.10.1"
ed25519-dalek = { version = "=2.2.0", features = ["rand_core"] }
hex = "=0.4.3"
base64 = "=0.22.1"
zeroize = "=1.9.1"
rand = "=0.8.8"
anyhow = "=1.0.104"
thiserror = "=2.0.21"
clap = { version = "=4.6.7", features = ["derive"] }
tokio = { version = "=1.54.1", features = ["full"] }
url = "=2.5.8"
tracing = "=0.1.44"
tracing-subscriber = "=0.3.23"
chrono = "=0.4.45"
bytes = "=1.12.1"
moq-native = "=0.19.19"
