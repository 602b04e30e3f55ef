[package]
name = "blockifier"
version = "0.1.0"
edition = "2021"
publish = false

[dependencies]
hashbrown = "=0.17.1"
serde_json = "=1.0.154"
starknet_api = "=0.11.0"
