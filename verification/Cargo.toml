[package]
name = "hibp_rs"
version = "0.1.0"
edition = "2021"
publish = false

[dependencies]
sha1 = "0.10"
urlencoding = "2"
reqwest = { version = "0.12", default-features = false, features = ["json", "rustls-tls"] }
tokio = { version = "1", features = ["sync", "time"] }
serde = { version = "1", features = ["derive"] }
