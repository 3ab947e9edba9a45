[package]
name = "geonft"
version = "0.1.0"
edition = "2021"
publish = false

[dependencies]
anyhow = "1"
base64 = "0.13"
bech32 = "0.11"
borsh = { version = "1", features = ["derive"] }
chrono = "0.4"
ed25519-dalek = "2"
env_logger = "0.11"
log = "0.4"
rocket = { version = "0.5", features = ["json"] }
rocket_dyn_templates = { version = "0.2", features = ["tera"] }
serde = { version = "1", features = ["derive"] }
serde_json = "1"
sha2 = "0.10"
