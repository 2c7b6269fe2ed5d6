[package]
name = "xoxo_nft"
version = "0.1.0"
edition = "2021"
publish = false

[dependencies]
mpl-token-metadata = "=5.1.1"
spl-token = { version = "7", default-features = false, features = ["no-entrypoint"] }
spl-associated-token-account = { version = "6", default-features = false, features = ["no-entrypoint"] }
solana-program = "2"
anchor-lang = { version = "0.31", features = ["init-if-needed"] }
anchor-spl = "0.31"
