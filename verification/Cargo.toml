[package]
name = "robot_attestation"
version = "0.1.0"
edition = "2021"
publish = false

[dependencies]
sha2 = "=0.10.9"
blake3 = { version = "=1.8.7", default-features = false, features = ["pure"] }
ed25519-dalek = { version = "=2.2.0", features = ["rand_core"] }
rand = "=0.8.8"
chrono = { version = "=0.4.45", features = ["serde"] }
base64 = "=0.21.7"
ciborium = "=0.2.2"
serde = { version = "=1.0.229", features = ["derive"] }
thiserror = "=1.0.69"
async-trait = "=0.1.92"
tokio = { version = "=1.54.1", features = ["sync", "rt", "macros"] }
reqwest = { version = "=0.11.27", default-features = false, features = ["json", "rustls-tls"] }
tracing = "=0.1.44"
hex = "=0.4.3"
p256 = "0.13"
x509-cert = { version = "0.2", features = ["builder"] }
