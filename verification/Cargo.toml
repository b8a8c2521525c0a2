[package]
name = "stokepile"
version = "0.2.0"
edition = "2021"
publish = false

[dependencies]
chrono = "=0.4.45"
regex = "=1.13.1"
url = "=2.5.8"
hex = "=0.4.3"
uuid = { version = "=1.29.0", features = ["v4"] }
serde = { version = "=1.0.229", features = ["derive"] }
serde_json = "=1.0.154"
toml = "=0.5.11"
walkdir = "=2.5.0"
dirs = "=5.0.1"
handlebars = "=4.5.0"
clap = "=2.34.0"
log = "=0.4.35"
ctrlc = "=3.5.2"
reqwest = { version = "=0.11.27", default-features = false, features = ["blocking", "json", "rustls-tls"] }
sha2 = "0.10"
