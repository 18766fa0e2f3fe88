[package]
name = "orkactl"
version = "0.1.0"
edition = "2021"
publish = false

[dependencies]
serde = { version = "*", features = ["derive"] }
serde_json = "*"
serde_yaml = "*"
url = "*"
home = "*"
thiserror = "*"
reqwest = { version = "*", default-features = false, features = ["json", "rustls-tls"] }
