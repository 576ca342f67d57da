[package]
name = "lzcr"
version = "2.0.0"
edition = "2021"
publish = false

[dependencies]
chrono = "0.4"
crossterm = "0.28"
include_dir = "0.7"
ratatui = "=0.29.0"
reqwest = { version = "=0.12.28", default-features = false, features = ["blocking", "json", "rustls-tls"] }
serde = { version = "1", features = ["derive"] }
serde_json = "=1.0.154"
simplecc = { version = "=0.2.2", features = ["builtin_dicts"] }
winreg = "0.55"
zip = { version = "2.2", default-features = false, features = ["deflate"] }
