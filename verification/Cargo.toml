[package]
name = "marketplace"
version = "0.1.0"
edition = "2021"
publish = false

[dependencies]
cosmwasm-std = "1.5"
cw20 = "1.1"
cw721 = "0.18"
serde = { version = "1", features = ["derive"] }
