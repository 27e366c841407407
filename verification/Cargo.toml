[package]
name = "slam"
version = "0.1.0"
edition = "2021"
publish = false

[dependencies]
chrono = "0.4"
clap = { version = "4", features = ["derive"] }
colored = "2"
dirs = "5"
env_logger = "0.11"
eyre = "0.6"
glob = "0.3"
log = "0.4"
rayon = "1"
regex = "1"
serde_json = "1"
similar = "2"
