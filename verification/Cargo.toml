[package]
name = "chess_net"
version = "0.1.0"
edition = "2021"
publish = false

[dependencies]
ggez = { version = "0.9", default-features = false }
local-ip-address = "0.6"
serde = { version = "1", features = ["derive"] }
serde_json = "1"
