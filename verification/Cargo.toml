[package]
name = "mrn"
version = "0.1.0"
edition = "2021"
publish = false

[dependencies]
regex = "=1.13.1"
handlebars = { version = "=6.4.4", features = ["string_helpers"] }
serde_json = "=1.0.151"
walkdir = "=2.5.0"
clap = { version = "=4.6.7", features = ["derive"] }
colored = "=3.1.1"
env_logger = "=0.11.11"
heck = "=0.5.0"
log = "=0.4.34"
kamadak-exif = "=0.6.1"
