[package]
name = "wimg_pipeline"
version = "0.1.0"
edition = "2021"
publish = false

[dependencies]
hex = "=0.4.3"
serde_json = "=1.0.151"
serde = "=1.0.229"
clap = { version = "=4.5.61", features = ["derive"] }
log = "=0.4.34"
pretty_env_logger = "=0.5.0"
