[package]
name = "playout_core"
version = "0.1.0"
edition = "2021"
publish = false

[dependencies]
chrono = "0.4"
regex = "1"
serde = { version = "1", features = ["derive"] }
serde_json = "1"
clap = { version = "4", features = ["derive"] }
reqwest = { version = "0.12", default-features = false, features = ["blocking"] }
jsonrpc-http-server = "18"
log = "0.4"
simplelog = "0.12"
file-rotate = "0.7"
lettre = { version = "0.11", default-features = false, features = ["smtp-transport", "builder"] }
