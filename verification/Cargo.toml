[package]
name = "site_gen"
version = "0.1.0"
edition = "2021"
publish = false

[dependencies]
chrono = { version = "=0.4.45", features = ["serde"] }
clap = { version = "=4.6.7", features = ["derive"] }
color-eyre = "=0.6.5"
comrak = { version = "=0.44.0", default-features = false }
env_logger = "=0.11.11"
handlebars = "=6.4.4"
log = "=0.4.34"
serde = { version = "=1.0.229", features = ["derive"] }
serde_json = "=1.0.154"
thiserror = "=2.0.21"
toml = "=1.1.8"
truncate_string_at_whitespace = "=1.0.3"
url = { version = "=2.5.8", features = ["serde"] }
voca_rs = "=1.15.2"
