[package]
name = "serein"
version = "0.1.0"
edition = "2021"
publish = false

[dependencies]
base64 = "0.22"
url = "2"
serde = { version = "1", features = ["derive"] }
serde_json = "1"
getrandom = "0.3"
zeroize = "1"
tokio = { version = "1", features = ["rt", "macros", "time", "sync"] }
reqwest = { version = "0.12", default-features = false, features = ["json"] }
egui = "*"
cpal = "*"
