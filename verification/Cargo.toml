[package]
name = "kaput"
version = "0.1.0"
edition = "2021"
publish = false

[dependencies]
base64 = "0.22"
blake2 = "0.10"
bytefmt = "0.1"
clap = "4"
confy = "0.6"
crossterm = "0.27"
ratatui = "0.26"
reqwest = { version = "0.12", default-features = false, features = ["blocking", "json", "multipart", "rustls-tls"] }
serde = { version = "1", features = ["derive"] }
serde_json = "1"
serde_with = "3"
tabled = "0.15"
arboard = { version = "3", default-features = false }
