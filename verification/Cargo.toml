[package]
name = "steward"
version = "0.1.0"
edition = "2021"
publish = false

[dependencies]
base64 = "=0.12.3"
byteorder = "=1.5.0"
indexmap = "=1.9.3"
regex = "=1.13.1"
serde = { version = "=1.0.229", features = ["derive"] }
serde_json = "=1.0.154"
toml = "=0.5.11"
quick-xml = "=0.18.1"
chrono = "=0.4.45"
log = "=0.4.35"
semver = "=0.11.0"
prettytable-rs = { version = "=0.10.0", default-features = false }
anyhow = "=1.0.104"
thiserror = "=1.0.69"
lazy_static = "=1.5.1"
