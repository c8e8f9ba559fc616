[package]
name = "flopeek-core"
version = "0.1.0"
edition = "2021"
publish = false

[dependencies]
blake3 = "1"
sha2 = "0.10"
serde = { version = "1", features = ["derive"] }
serde_json = "1"
jsonc-parser = { version = "*", features = ["serde"] }
rusqlite = { version = "*", features = ["bundled"] }
