[package]
name = "storage_node"
version = "0.1.0"
edition = "2021"
publish = false

[dependencies]
chrono = "0.4"
rust-crypto = "0.2.36"
rand = "0.8"
serde = { version = "1", features = ["derive"] }
serde_json = "1"
tokio = { version = "1", features = ["rt-multi-thread", "macros", "sync", "time"] }
warp = { version = "0.3", default-features = false, features = ["multipart"] }
reqwest = { version = "0.11", default-features = false, features = ["json"] }
log = "0.4"
fern = { version = "0.6", features = ["colored"] }
ctrlc = "3"
futures = "0.3"
bytes = "1"
