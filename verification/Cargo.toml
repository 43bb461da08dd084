[package]
name = "osgrep_core"
version = "0.1.0"
edition = "2021"
publish = false

[dependencies]
tokenizers = "=0.23.2"
serde_json = "=1.0.151"
ort = { version = "=2.0.0-rc.13", default-features = false, features = ["std", "alternative-backend"] }
hf-hub = "=0.3.2"
once_cell = "=1.21.4"
anyhow = "=1.0.104"
