[package]
name = "anchor_token"
version = "0.1.0"
edition = "2021"
publish = false

[dependencies]
cosmwasm-std = "=0.16.7"
cosmwasm-storage = "=0.16.7"
cw-storage-plus = "=0.8.1"
cw2 = "=0.8.1"
cw20 = "=0.8.1"
cw20-base = { version = "=0.8.1", features = ["library"] }
terraswap = "=2.4.1"
schemars = "=0.8.22"
serde = { version = "=1.0.229", default-features = false, features = ["derive"] }
thiserror = "=1.0.69"
hex = "=0.4.3"
sha3 = "=0.9.1"
