[package]
name = "stellar_aggregator"
version = "0.1.0"
edition = "2021"
publish = false

[dependencies]
eyre = "=0.6.14"
hex = "=0.4.3"
openvm = "=2.0.2"
openvm-build = "=2.0.2"
rand = "=0.8.8"
sha2 = "=0.10.9"
soroban-sdk = { version = "=29.0.1", features = ["testutils"] }
tracing-subscriber = { version = "=0.3.23", features = ["env-filter"] }
