[package]
name = "finalizer"
version = "0.1.0"
edition = "2021"
publish = false

[dependencies]
serde = { version = "1", features = ["derive"] }
toml = "0.8"
nix = { version = "0.30", features = ["fs", "poll"] }
inotify = "0.11"
evdev = "0.13"
