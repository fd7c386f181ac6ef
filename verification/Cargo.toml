[package]
name = "runer"
version = "0.1.0"
edition = "2021"
publish = false

[dependencies]
anyhow = "1"
chrono = "0.4"
clap = { version = "4", features = ["derive"] }
config = "0.14"
env_logger = "0.11"
gdk4 = "0.7"
gtk4 = "0.7"
log = "0.4"
serde = { version = "1", features = ["derive"] }
smol = "2"
