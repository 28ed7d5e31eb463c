[package]
name = "tuimail"
version = "0.1.0"
edition = "2021"
publish = false

[dependencies]
mail-parser = "0.8"
chrono = "0.4"
anyhow = "1"
thiserror = "1"
serde = { version = "1", features = ["derive"] }
serde_json = "1"
log = "0.4"
env_logger = "0.10"
clap = { version = "4", features = ["derive"] }
crossterm = "0.27"
ratatui = "0.26"
dirs = "5"
shellexpand = "3"
imap = "2.4"
native-tls = "0.2"
lettre = "0.11"
keyring = "2"
rusqlite = { version = "0.31", features = ["bundled"] }
tokio = { version = "1", features = ["sync", "time", "rt", "macros"] }
