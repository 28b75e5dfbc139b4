[package]
name = "edge_store"
version = "0.1.0"
edition = "2021"
publish = false

[dependencies]
sha2 = "=0.11.0"
base64 = "=0.23.1"
chrono = "=0.4.45"
serde_json = "*"
