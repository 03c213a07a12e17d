[package]
name = "gossip_broadcast"
version = "0.1.0"
edition = "2021"
publish = false

[dependencies]
async-trait = "*"
maelstrom-node = "*"
serde = { version = "*", features = ["derive"] }
tokio = { version = "*", features = ["full"] }
tokio-context = "*"
