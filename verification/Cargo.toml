[package]
name = "ground_station"
version = "0.1.0"
edition = "2021"

[dependencies]
anyhow = "1.0"
chrono = { version = "0.4", features = ["serde"] }
clap = { version = "4.5", features = ["derive"] }
env_logger = "0.11"
image = { version = "*", default-features = false, features = ["png"] }
log = "0.4"
nix = { version = "0.29", features = ["signal", "process"] }
reqwest = { version = "0.12", default-features = false, features = ["json", "multipart", "rustls-tls"] }
rustfft = "*"
serde = { version = "1.0", features = ["derive"] }
serde_json = "1.0"
sgp4 = "*"
tokio = { version = "1.38", features = ["full"] }
toml = "0.8"
urlencoding = "2.1"
