[package]
name = "agenda"
version = "0.1.0"
edition = "2021"
publish = false

[dependencies]
chrono = "=0.4.45"
uuid = { version = "=1.29.0", features = ["v4"] }
serde_json = "=1.0.154"
serde = { version = "=1.0.229", features = ["derive"] }
ureq = { version = "2", default-features = false, features = ["json"] }
