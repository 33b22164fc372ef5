[package]
name = "license_secret_agent"
version = "0.1.0"
edition = "2021"
publish = false

[dependencies]
aes-gcm = "0.10"
anyhow = "1"
base64 = "0.21"
chrono = "0.4"
clap = { version = "4", features = ["derive"] }
hex = "0.4"
nix = { version = "0.29", features = ["socket"] }
rand = "0.8"
reqwest = { version = "0.12", default-features = false, features = ["rustls-tls"] }
rsa = "0.9"
sha2 = "0.10"
tokio = { version = "1", features = ["full"] }
