[package]
name = "chain_democracy"
version = "0.1.0"
edition = "2021"
publish = false

[dependencies]
chrono = "0.4"
solana-program = "1.18"

[dev-dependencies]
borsh = "0.10"
