[package]
name = "vanity_search"
version = "0.1.0"
edition = "2021"
publish = false

[dependencies]
aes = "0.8"
bs58 = "0.5"
cbc = { version = "0.1", features = ["alloc"] }
cipher = { version = "0.4", features = ["block-padding", "alloc"] }
dotenv = "0.15"
mongodb = "3"
rand = "0.9"
rayon = "1"
solana-sdk = "*"
tokio = { version = "1", features = ["rt-multi-thread", "macros", "signal"] }
