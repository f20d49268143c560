[package]
name = "jpresentation"
version = "0.1.0"
edition = "2021"
publish = false

[dependencies]
md-5 = "0.10"
zip = { version = "0.6", default-features = false, features = ["deflate"] }
rusqlite = { version = "0.31", features = ["bundled"] }
serde = { version = "1", features = ["derive"] }
serde_json = "1"
uuid = { version = "1", features = ["v4"] }
thiserror = "1"
reqwest = { version = "0.12", default-features = false, features = ["blocking", "json", "rustls-tls"] }

[dev-dependencies]
tempfile = "3"
