[package]
name = "attestation_registry"
version = "0.1.0"
edition = "2021"
publish = false

[dependencies]
anyhow = "1"
bincode = "1"
borsh = "1"
clap = { version = "4", features = ["derive", "env"] }
dotenv = "0.15"
pinocchio = "0.8"
pinocchio-system = "0.2"
solana-program = "2"
solana-sdk = "2"
tokio = { version = "1", features = ["macros", "rt-multi-thread"] }
