[package]
name = "construction_os"
version = "0.1.0"
edition = "2021"
publish = false

[dependencies]
chrono = "0.4"
base64 = "0.22"
serde = { version = "1", features = ["derive"] }
serde_json = "1"
rusqlite = { version = "*", features = ["bundled"] }
ureq = { version = "2", features = ["json"] }
dirs = "*"
opener = "*"
whisper-rs = "*"

[dev-dependencies]
hound = "*"
