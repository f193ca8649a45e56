[package]
name = "node_network"
version = "0.1.0"
edition = "2021"
publish = false

[dependencies]
base64 = "*"
serde_json = "*"
lockfree = "*"
log = "*"
tokio = { version = "*", features = ["rt", "time", "macros", "sync"] }
async-trait = "*"
