[package]
name = "holium_core"
version = "0.1.0"
edition = "2021"
publish = false

[dependencies]
walrus = "*"
semver = "*"
serde_cbor = "*"
serde = { version = "*", features = ["derive"] }
serde_json = "*"
