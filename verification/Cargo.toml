[package]
name = "bdkgo"
version = "0.1.0"
edition = "2021"
publish = false

[dependencies]
bdk_wallet = { version = "1", features = ["rusqlite", "keys-bip39"] }
bdk_chain = "0.21"
bincode = "1.3"
rand = "0.8"
serde = { version = "1", features = ["derive"] }
thiserror = "1"
