[package]
name = "pdu_automation"
version = "0.1.0"
edition = "2021"
publish = false

[dependencies]
regex = "*"
csv = "*"
chrono = { version = "*", default-features = false, features = ["clock", "std"] }
serde = { version = "*", features = ["derive"] }
serde_json = "*"
walkdir = "*"
zip = { version = "*", default-features = false, features = ["deflate"] }
thiserror = "*"

[dev-dependencies]
tempfile = "*"
