[package]
name = "hypemeter"
version = "0.1.0"
edition = "2021"
publish = false

[dependencies]
solana-program = "1.18"
spl-associated-token-account = { version = "3.0", default-features = false, features = ["no-entrypoint"] }
spl-pod = "0.2"
spl-token = { version = "4.0", default-features = false, features = ["no-entrypoint"] }
spl-token-2022 = { version = "3.0", default-features = false, features = ["no-entrypoint"] }
spl-token-metadata-interface = "0.3"
thiserror = "1.0"
