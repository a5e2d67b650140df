[package]
name = "novel_studio_ai"
version = "0.1.0"
edition = "2021"
publish = false

[dependencies]
zip = { version = "=2.6.1", default-features = false }
uuid = { version = "=1.29.0", features = ["v4"] }
getrandom = "=0.4.3"
serde = { version = "=1.0.229", features = ["derive"] }
serde_json = "=1.0.154"
chrono = { version = "=0.4.45", default-features = false, features = ["clock", "std"] }
rusqlite = { version = "=0.32.1", features = ["bundled"] }
log = "=0.4.35"
tempfile = "=3.27.0"
printpdf = "=0.8.2"
