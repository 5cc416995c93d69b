[package]
name = "finalizer"
version = "0.1.0"
edition = "2021"
publish = false

[dependencies]
chrono = "0.4"
evdev = "0.13"
inotify = "0.11"
nix = { version = "0.30", features = ["fs", "poll"] }
serde = { version = "1", features = ["derive"] }
toml = "0.8"
