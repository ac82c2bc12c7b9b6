[package]
name = "yood"
version = "0.2.0"
edition = "2021"
publish = false

[dependencies]
url = "2"
regex = "1"
adblock = "*"
chrono = "0.4"
uuid = { version = "1", features = ["v4"] }
directories = "5"
which = "*"
fs2 = "0.4"
serde = { version = "1", features = ["derive"] }
serde_json = "1"
tokio = { version = "1", features = ["process", "io-util", "fs", "time", "sync", "macros", "rt-multi-thread"] }
futures-util = "0.3"
reqwest = { version = "0.12", default-features = false, features = ["rustls-tls", "stream"] }
keyring = "3"
thiserror = "2"
