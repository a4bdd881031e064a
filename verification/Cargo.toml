[package]
name = "giga_chess_core"
version = "0.1.0"
edition = "2021"
publish = false

[dependencies]
giga-chess-api-types = { version = "=0.1.0", features = ["validator", "uuid"] }
url = "=2.5.8"
serde = { version = "=1.0.229", features = ["derive"] }
serde_json = "=1.0.151"
log = "=0.4.34"
directories = "=6.0.0"
