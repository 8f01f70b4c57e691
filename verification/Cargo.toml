[package]
name = "validator_metrics"
version = "0.1.0"
edition = "2021"
publish = false

[dependencies]
chrono = "0.4"
curl = "0.4"
log = "0.4"
serde_json = "1"
solana-sdk = "=1.18.26"
url = "2"
