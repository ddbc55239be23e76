[package]
name = "send_to_burn_address"
version = "0.1.0"
edition = "2021"
publish = false

[dependencies]
cosmwasm-std = "=0.16.7"
terra-cosmwasm = "=2.2.0"
serde = { version = "=1.0.229", features = ["derive"] }
