[package]
name = "maturana"
version = "0.1.0"
edition = "2021"
publish = false

[dependencies]
anyhow = "1"
chrono = { version = "0.4", features = ["serde"] }
clap = { version = "4.5", features = ["derive", "env"] }
dirs = "5"
rand = "0.8"
serde = { version = "1", features = ["derive"] }
serde_json = "1"
tungstenite = { version = "0.23", features = ["rustls-tls-webpki-roots"] }
ureq = { version = "2", features = ["json"] }
