[package]
name = "yal"
version = "0.1.0"
edition = "2021"
publish = false

[dependencies]
serde = { version = "=1.0.229", features = ["derive"] }
serde_json = "=1.0.154"
toml = "=1.1.8"
dirs = "=7.0.0"
base64 = "=0.22.1"
mlua = { version = "*", features = ["lua54", "vendored", "serialize"] }
