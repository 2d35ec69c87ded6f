[package]
name = "eruption_profiles"
version = "0.1.0"
edition = "2021"
publish = false

[dependencies]
uuid = { version = "0.8", features = ["v4", "serde"] }
serde = { version = "1", features = ["derive"] }
toml = "0.5"
serde_yaml = "0.8"
eyre = "0.6"
failure = "0.1"
thiserror = "1"
log = "0.4"
