[package]
name = "order_ledger"
version = "0.1.0"
edition = "2021"
publish = false

[dependencies]
secret-cosmwasm-std = "=0.10.1"
secret-cosmwasm-storage = "=0.10.0"
secret-toolkit = "=0.2.0"
schemars = "=0.7.6"
serde = { version = "=1.0.229", default-features = false, features = ["derive"] }
