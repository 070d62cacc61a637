[package]
name = "rexe"
version = "0.1.0"
edition = "2021"
publish = false

[dependencies]
base64 = "*"
rand = "*"
regex = "*"
terminal_size = "*"
serde = { version = "*", features = ["derive"] }
serde_json = "*"
clap = "*"
log = "*"
env_logger = "*"
reqwest = { version = "*", default-features = false, features = ["blocking"] }
timer = "*"
chrono = "*"
zookeeper = "*"
