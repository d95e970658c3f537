[package]
name = "settlement_engine"
version = "0.1.0"
edition = "2021"
publish = false

[dependencies]
aes-gcm = "=0.11.1"
base64 = "=0.23.1"
bincode = "=1.3.3"
rand = "=0.10.3"
sha2 = "=0.11.0"
solana-keypair = "=4.0.0"
solana-message = { version = "=5.1.0", features = ["serde"] }
solana-signature = { version = "=3.6.0", features = ["verify"] }
solana-transaction = { version = "=5.1.0", features = ["serde"] }
spl-associated-token-account = "=8.0.0"
spl-token = "=9.0.0"
