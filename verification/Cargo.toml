[package]
name = "story_analysis"
version = "0.1.0"
edition = "2021"
publish = false

[dependencies]
chrono = "0.4"
rusqlite = { version = "*", features = ["bundled"] }
serde = { version = "1", features = ["derive"] }
serde_json = "1"
serde_yaml = "0.9"
tauri = { version = "2", default-features = false }
uuid = { version = "1", features = ["v4"] }

[dev-dependencies]
regex = "1"
