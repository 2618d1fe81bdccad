[package]
name = "mass_transcriptor"
version = "0.1.0"
edition = "2021"
publish = false

[dependencies]
mime_guess = "2"
serde = { version = "1", features = ["derive"] }
serde_json = "1"
chrono = "0.4"
rusqlite = { version = "*", features = ["bundled"] }
reqwest = { version = "0.12", default-features = false, features = ["blocking", "json", "rustls-tls"] }
parking_lot = "0.12"
