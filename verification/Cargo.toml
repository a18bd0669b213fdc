[package]
name = "cluster_node"
version = "0.1.0"
edition = "2021"
publish = false

[dependencies]
serde = { version = "1", features = ["derive"] }
serde_json = "1"
rand = "0.8"
chrono = "0.4"
rust-crypto = "0.2"
regex = "1"
json = "0.12"
once_cell = "1"
reqwest = { version = "0.11", features = ["blocking", "json"] }
actix-web = "4"
actix-rt = "2"
async-std = "1"
