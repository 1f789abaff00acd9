[package]
name = "mapscow_mule"
version = "0.1.0"
edition = "2021"
publish = false

[dependencies]
quick-xml = "=0.36.2"
gpx = "=0.10.0"
chrono = "=0.4.45"
serde = { version = "=1.0.229", features = ["derive"] }
serde_yaml = "=0.9.34"
toml = "=1.1.8"
anyhow = "=1.0.104"
thiserror = "=1.0.69"
log = "=0.4.35"
env_logger = "=0.11.11"
clap = "=4.6.7"
geo-types = "=0.7.20"
svg = "=0.18.0"
dirs = "=7.0.0"
egui = "=0.37.0"
nalgebra = "=0.35.0"
