[package]
name = "tangle_client"
version = "0.1.0"
edition = "2021"
publish = false

[dependencies]
anyhow = "*"
serde = "*"
serde_json = "*"
iota-conversion = "*"
iota-bundle-preview = "*"
iota-crypto-preview = "*"
iota-signing-preview = "*"
iota-ternary-preview = "*"
