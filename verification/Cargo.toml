[package]
name = "chain_indexer"
version = "0.1.0"
edition = "2021"
publish = false

[dependencies]
base64 = "*"
cosmos-sdk-proto = "*"
prost = "*"
hex = "*"
sha2 = "*"
serde = { version = "*", features = ["derive"] }
serde_json = "*"
chrono = "*"
tokio = { version = "*", features = ["rt-multi-thread", "macros", "time"] }
reqwest = { version = "*", default-features = false, features = ["json"] }
reqwest-middleware = "*"
async-trait = "*"
