[package]
name = "karasad"
version = "0.1.0"
edition = "2021"
publish = false

[dependencies]
blake3 = "1"
dirs = "6"
urlencoding = "2"
serde = { version = "1", features = ["derive"] }
serde_json = "1"
ureq = { version = "3", features = ["json"] }
lofty = "0.22"
walkdir = "2"
rand = "0.9"
pitch-detection = "0.3"
