[package]
name = "geopard"
version = "1.0.0"
edition = "2021"
publish = false

[dependencies]
url = "*"
glib = "*"
gio = "*"
serde = { version = "*", features = ["derive"] }
toml = "*"
async-fs = "*"
anyhow = "*"
futures = "*"
log = "*"
env_logger = "*"
thiserror = "*"
