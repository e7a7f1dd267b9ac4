[package]
name = "echo_sessions"
version = "0.1.0"
edition = "2021"
publish = false

[dependencies]
sha3 = "0.10"
serde = { version = "1", features = ["derive"] }
serde_json = "1"
tungstenite = "0.21"
dialoguer = "0.11"
dotenv = "0.15"
