[package]
name = "yuumi"
version = "0.1.0"
edition = "2021"
publish = false

[dependencies]
base64 = "0.22"
chrono = "0.4"
serde = { version = "1", features = ["derive"] }
serde_json = "1"
reqwest = { version = "0.12", default-features = false, features = ["json"] }
tokio = { version = "1", features = ["rt", "time", "sync", "macros"] }
rusqlite = { version = "*", features = ["bundled"] }
futures-util = "0.3"
log = "0.4"
dirs = "*"
sysinfo = "*"
