[package]
name = "light_tsdb"
version = "0.1.0"
edition = "2021"
publish = false

[dependencies]
internment = { version = "=0.8.6", features = ["arc"] }
roaring = "=0.11.5"
serde = { version = "=1.0.229", features = ["derive"] }
serde_json = "=1.0.151"
