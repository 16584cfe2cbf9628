[package]
name = "hydrangea"
version = "0.1.0"
edition = "2021"
publish = false

[dependencies]
base64 = "0.13"
crossbeam-channel = "0.5"
failure = "0.1"
fancy-regex = "0.11"
futures = "0.3"
handlebars = "4"
irc = "0.15"
linkify = "0.9"
pickledb = "0.5"
rand = "0.8"
reqwest = { version = "0.11", features = ["blocking", "json"] }
serde = { version = "1", features = ["derive"] }
serde_json = "1"
tokio = { version = "1", features = ["macros", "rt-multi-thread"] }
urlparse = "0.7"
webpage = "1"
