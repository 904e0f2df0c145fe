[package]
name = "multisig_wallet"
version = "0.1.0"
edition = "2021"
publish = false

[dependencies]
exonum = "=1.0.0"
exonum-derive = "=1.0.0"
failure = "=0.1.8"
serde = { version = "=1.0.229", features = ["derive"] }
serde_derive = "=1.0.229"
sha2 = "0.10"
