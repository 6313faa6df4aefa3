[package]
name = "order_tracker"
version = "0.1.0"
edition = "2021"
publish = false

[dependencies]
solana-program = "1.18.26"
spl-token-2022 = { version = "3.0", features = ["no-entrypoint"] }
spl-transfer-hook-interface = "0.6"
spl-tlv-account-resolution = "0.6"
spl-associated-token-account = { version = "3.0", features = ["no-entrypoint"] }
spl-token-metadata-interface = "0.3"
borsh = "1"
