[package]
name = "cosmic-ext-niri-windows"
version = "0.1.0"
edition = "2021"
publish = false

[dependencies]
serde_json = "1"
freedesktop-desktop-entry = "0.7"
niri-ipc = "*"
dirs = "*"
env_logger = "*"
tokio = { version = "1", features = ["fs", "net", "io-util", "time", "rt"] }
