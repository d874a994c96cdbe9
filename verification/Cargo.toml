[package]
name = "savings_program"
version = "0.1.0"
edition = "2021"
publish = false

[dependencies]
anchor-lang = "=0.29.0"
anchor-spl = { version = "=0.29.0", default-features = false, features = ["token", "associated_token"] }
anyhow = "=1.0.104"
clap = { version = "=4.6.7", features = ["derive"] }
solana-sdk = "=1.16.27"
spl-memo = "=4.0.0"
spl-token = "=4.0.0"
tokio = { version = "=1.54.1", features = ["rt-multi-thread", "macros"] }
