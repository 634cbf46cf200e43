[package]
name = "daylog"
version = "0.1.0"
edition = "2021"
publish = false

[dependencies]
anyhow = "=1.0.104"
base64 = "=0.23.1"
chrono = "=0.4.45"
chrono-tz = "=0.10.4"
clap = { version = "=4.6.7", features = ["derive"] }
hostname = "=0.4.2"
log = "=0.4.34"
maildir = "=0.6.6"
mailparse = "=0.15.0"
nix = { version = "=0.29.0", features = ["poll", "socket", "signal", "fs"] }
regex = "=1.13.1"
ring = "=0.17.14"
rusqlite = { version = "=0.40.2", features = ["bundled"] }
serde = { version = "=1.0.229", features = ["derive"] }
serde_rusqlite = "=0.43.0"
serde_yaml = "=0.9.34"
signal-hook = "=0.4.5"
stderrlog = "=0.6.0"
