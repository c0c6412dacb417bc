[package]
name = "antigravity_agent"
version = "0.1.0"
edition = "2021"
publish = false

[dependencies]
rusqlite = { version = "*", features = ["bundled"] }
serde_json = "*"
sysinfo = "*"
dirs = "*"
chrono = "*"
base64 = "*"
serde = { version = "*", features = ["derive"] }
