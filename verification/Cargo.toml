[package]
name = "charmcircle"
version = "0.1.0"
edition = "2021"
publish = false

[dependencies]
anyhow = "1"
charms-sdk = "*"
ciborium = "0.2"
hex = "0.4"
serde = { version = "1", features = ["derive"] }
serde_cbor = "0.11"
sha2 = "0.10"
