[package]
name = "psionic"
version = "0.0.1"
edition = "2021"
publish = false

[dependencies]
chrono = { version = "0.4", default-features = false, features = ["std", "now"] }
regex = "1"
serde_json = "1"
uuid = { version = "1", features = ["v4"] }
