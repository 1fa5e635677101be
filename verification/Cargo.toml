[package]
name = "whale_rs"
version = "0.1.0"
edition = "2021"
publish = false

[dependencies]
anyhow = "1"
bincode = "1"
chrono = "0.4"
crossterm = "0.27"
dotenv = "0.15"
serde = { version = "1", features = ["derive"] }
toml = "0.8"
