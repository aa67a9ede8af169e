[package]
name = "royalroad"
version = "0.1.0"
edition = "2021"
publish = false

[dependencies]
regex = "1"
serde = { version = "1", features = ["derive"] }
bincode = "1"
reqwest = { version = "0.11", default-features = false, features = ["blocking", "rustls-tls"] }
