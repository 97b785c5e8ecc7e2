[package]
name = "vuln_hound"
version = "0.1.0"
edition = "2021"
publish = false

[dependencies]
chrono = "0.4"
grep-regex = "0.1"
grep-searcher = "0.1"
ignore = "0.4"
keyring = { version = "3", features = ["apple-native", "windows-native", "linux-native"] }
reqwest = { version = "0.12", features = ["json"] }
serde = { version = "1", features = ["derive"] }
serde_json = "1"
thiserror = "2"
tokio = { version = "1", features = ["time", "rt", "macros"] }
tokio-util = "0.7"
uuid = { version = "1", features = ["v4"] }
