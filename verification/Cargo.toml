[package]
name = "exit_relay"
version = "0.1.0"
edition = "2021"
publish = false

[dependencies]
actix = "0.13"
regex = "1"
serde = { version = "1", features = ["derive"] }
serde_cbor = "0.11"
serde_derive = "1"
trust-dns-resolver = "0.23"
