[package]
name = "streamswap"
version = "0.1.0"
edition = "2021"
publish = false

[dependencies]
cosmwasm-schema = "1.5"
cosmwasm-std = { version = "1.5", features = ["cosmwasm_1_2"] }
cw-storage-plus = "1.2"
cw-utils = "1.0"
cw2 = "1.1"
osmosis-std = "0.25"
