[package]
name = "blobman"
version = "0.1.0"
edition = "2021"
publish = false

[dependencies]
sha2 = "=0.10.9"
serde = { version = "=1.0.229", features = ["derive"] }
toml = "=0.5.11"
reqwest = { version = "=0.12.28", default-features = false, features = ["blocking"] }
app_dirs = "=1.2.1"
structopt = "=0.3.26"
