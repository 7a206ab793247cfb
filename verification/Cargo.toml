[package]
name = "minter"
version = "0.1.0"
edition = "2021"
publish = false

[dependencies]
base64 = "0.22"
candid = "0.10"
hex = "0.4"
k256 = "0.13"
libsecp256k1 = "0.7"
num-bigint = "0.4"
serde_cbor = "0.11"
sha2 = "0.10"
serde = { version = "1", features = ["derive"] }
serde_json = "1"
ic-cdk = "0.13"
ic-cdk-timers = "0.7"
icrc-ledger-types = "0.1"
minicbor = { version = "0.24", features = ["derive", "alloc"] }
