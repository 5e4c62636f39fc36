[package]
name = "loan_program"
version = "0.1.0"
edition = "2021"
publish = false

[dependencies]
solana-program = "=5.1.0"
solana-system-interface = { version = "*", features = ["bincode"] }
