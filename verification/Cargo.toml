[package]
name = "barepdf"
version = "0.1.0"
edition = "2021"
publish = false

[dependencies]
ed25519-dalek = "=2.2.0"
semver = "=1.0.28"
ureq = "=3.5.1"
sha2 = "=0.10.9"
serde = { version = "=1.0.229", features = ["derive"] }
serde_json = "=1.0.154"
thiserror = "=2.0.21"
tempfile = "=3.27.0"
tracing = "=0.1.44"
tracing-subscriber = "=0.3.23"
lru = "=0.19.0"
