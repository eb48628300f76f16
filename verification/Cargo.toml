[package]
name = "arcana_holdem"
version = "0.1.0"
edition = "2021"
publish = false

[dependencies]
anchor-lang = "=0.32.1"
arcium-anchor = { version = "=0.9.6", default-features = false }
arcium-client = { version = "=0.9.6", default-features = false }
solana-program = "=2.3.0"
