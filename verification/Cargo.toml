[package]
name = "speakv"
version = "0.1.0"
edition = "2021"
publish = false

[dependencies]
bcrypt = "*"
rusqlite = { version = "*", features = ["bundled"] }
uuid = { version = "*", features = ["v4"] }
chrono = "*"
