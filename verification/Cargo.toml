[package]
name = "dockpit"
version = "3.3.0"
edition = "2021"
publish = false

[dependencies]
anyhow = "1"
arboard = { version = "3", default-features = false }
bollard = "0.18"
chrono = "0.4"
clap = { version = "4", features = ["derive"] }
crossterm = "0.28"
env_logger = "0.11"
futures-util = "0.3"
log = "0.4"
ratatui = "0.29"
serde = { version = "1", features = ["derive"] }
tokio = { version = "1", features = ["full"] }
