[package]
name = "txengine"
version = "0.1.0"
edition = "2021"
publish = false

[dependencies]
solana-sdk = "=1.18.26"
spl-token = "=4.0.0"
spl-associated-token-account = "=2.3.0"
mpl-token-metadata = "=4.1.2"
