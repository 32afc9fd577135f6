[package]
name = "hypercool"
version = "0.1.0"
edition = "2021"
publish = false

[dependencies]
base64 = "0.22"
brotli = "*"
flate2 = "1"
regex = "1"
lru = "*"
serde = { version = "1", features = ["derive"] }
serde_json = "1"
chrono = "0.4"
encoding_rs = "0.8"
rusqlite = { version = "*", features = ["bundled"] }
notify = "*"
uuid = { version = "1", features = ["v4"] }
zip = { version = "*", default-features = false, features = ["deflate"] }
scraper = "*"
reqwest = { version = "0.12", default-features = false, features = ["blocking", "cookies", "rustls-tls"] }
tokio = { version = "1", features = ["time"] }
