[package]
name = "cablescout"
version = "0.1.0"
edition = "2021"
publish = false

[dependencies]
anyhow = "=1.0.104"
chrono = "=0.4.45"
dirs = "*"
email-address-parser = "=2.0.2"
env_logger = "*"
humantime = "*"
ipnetwork = { version = "=0.21.1", features = ["serde"] }
jsonwebtoken = { version = "=11.1.0", features = ["rust_crypto"] }
log = "*"
reqwest = { version = "=0.13.5", default-features = false, features = ["json"] }
ring = "=0.17.14"
serde = { version = "=1.0.229", features = ["derive"] }
serde_ini = "=0.2.0"
serde_json = "=1.0.151"
serde_yaml = "=0.9.34"
shellexpand = "=3.1.2"
structopt = "=0.3.26"
thiserror = "*"
tokio = { version = "=1.53.2", features = ["full"] }
url = "=2.5.8"
uuid = { version = "=1.27.0", features = ["v4", "serde"] }
