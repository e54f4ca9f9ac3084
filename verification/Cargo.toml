[package]
name = "truthsync_core"
version = "0.1.0"
edition = "2021"
publish = false

[dependencies]
aho-corasick = "1"
shared_memory = "*"
serde = { version = "1", features = ["derive"] }
serde_json = "1"
chrono = { version = "0.4", features = ["serde"] }
reqwest = { version = "0.12", default-features = false, features = ["blocking", "json"] }
uuid = { version = "1", features = ["v4"] }
