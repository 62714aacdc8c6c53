[package]
name = "sui_indexer"
version = "0.1.0"
edition = "2021"
publish = false

[dependencies]
diesel = { version = "2", features = ["postgres", "r2d2"] }
fastcrypto = "*"
serde = { version = "1", features = ["derive"] }
serde_json = "1"
tracing = "0.1"
