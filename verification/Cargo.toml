[package]
name = "podcast_helper"
version = "0.1.0"
edition = "2021"
publish = false

[dependencies]
feed-rs = "*"
url = "2"
ureq = "2"
tempfile = "3"
thiserror = "*"
serde = { version = "1", features = ["derive"] }
youtube-helper-rs = "*"
