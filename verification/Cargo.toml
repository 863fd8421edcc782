[package]
name = "ddp"
version = "0.1.0"
edition = "2021"
publish = false

[dependencies]
rand = "0.4"
serde_json = "1"
url = "1"
websocket = { version = "0.26", default-features = false, features = ["sync"] }
log = "0.4"
