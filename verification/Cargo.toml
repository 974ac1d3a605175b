[package]
name = "chain_rs_lib"
version = "0.1.0"
edition = "2021"
publish = false

[dependencies]
crypto-hash = "0.3"
hex = "0.4"
serde = { version = "1", features = ["derive"] }
rocket = { version = "0.5", features = ["json"] }
