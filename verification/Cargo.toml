[package]
name = "topstats"
version = "0.1.0"
edition = "2021"
publish = false

[dependencies]
chrono = { version = "0.4", default-features = false, features = ["std", "clock", "serde"] }
serde = { version = "1", features = ["derive"] }
serde_json = "1"
thiserror = "2"
urlencoding = "2"
reqwest = { version = "0.12", default-features = false, features = ["rustls-tls"] }
ureq = "3"
async-trait = "0.1"
futures = "0.3"
futures-timer = "3"
