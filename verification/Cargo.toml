[package]
name = "clipboard_watch"
version = "0.1.0"
edition = "2021"
publish = false

[dependencies]
base64 = "0.22"
serde_json = "1"
x11rb = { version = "0.13", features = ["xfixes"] }
