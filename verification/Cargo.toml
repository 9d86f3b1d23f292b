[package]
name = "ravencoin_parser"
version = "0.1.0"
edition = "2021"
publish = false

[dependencies]
bitcoin = "0.29"
bs58 = "0.5"
sha2 = "0.10"
serde = { version = "1", features = ["derive"] }
