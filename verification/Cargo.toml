[package]
name = "karaoke_room"
version = "0.1.0"
edition = "2021"
publish = false

[dependencies]
chrono = "*"
uuid = { version = "*", features = ["v4"] }
sha2 = "*"
hex = "*"
local-ip-address = "*"
serde = { version = "*", features = ["derive"] }
serde_json = "*"
