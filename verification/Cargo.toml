[package]
name = "unirss"
version = "0.1.0"
edition = "2021"
publish = false

[dependencies]
feed-rs = "2"
mdka = "1"
url = "2"
webpage = { version = "2", default-features = false }
sys-locale = "0.3"
reqwest = { version = "0.12", default-features = false }
tokio = { version = "1", features = ["rt-multi-thread"] }
ron = "0.8"
serde = { version = "1", features = ["derive"] }
webbrowser = "1"
