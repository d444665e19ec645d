[package]
name = "licensing_client"
version = "0.1.0"
edition = "2021"
publish = false

[dependencies]
data-encoding = "2"
ed25519-dalek = { version = "2", features = ["pkcs8", "pem"] }
sha2 = "0.10"
reqwest = { version = "0.12", default-features = false, features = ["json", "rustls-tls"] }
serde = { version = "1", features = ["derive"] }
serde_json = "1"
url = "2"
thiserror = "1"
