[package]
name = "habit_tracker"
version = "0.1.0"
edition = "2021"
publish = false

[dependencies]
chrono = { version = "=0.4.45", features = ["serde"] }
rayon = "=1.12.0"
rusqlite = { version = "=0.40.2", features = ["bundled"] }
serde = { version = "=1.0.229", features = ["derive"] }
tauri = { version = "2", default-features = false }
uuid = { version = "=1.29.0", features = ["v4"] }
