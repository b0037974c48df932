[package]
name = "analyze_screen_sidecar"
version = "0.1.0"
edition = "2021"
publish = false

[dependencies]
base64 = "0.22"
image = { version = "0.25", default-features = false, features = ["png"] }
serde = { version = "1", features = ["derive"] }
serde_json = "1"
tiny_http = "0.12"
toml = "0.8"
ureq = { version = "2", features = ["json"] }
wait-timeout = "0.2"
