[package]
name = "chrono_term"
version = "0.1.0"
edition = "2021"
publish = false

[dependencies]
unicode-width = "0.1"
regex = "1"
vte = "0.13"
anyhow = "1"
log = "0.4"
env_logger = "0.11"
dirs = "5"
serde = { version = "1", features = ["derive"] }
toml = "0.8"
portable-pty = "0.8"
fontdue = "0.9"
arboard = "3"
softbuffer = "0.4"
winit = "0.29"
