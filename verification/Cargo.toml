[package]
name = "aoiplate"
version = "0.1.0"
edition = "2021"
publish = false

[dependencies]
anyhow = "1"
auto-launch = "*"
base64 = "0.22"
core-foundation = "*"
core-graphics = "*"
dirs = "*"
macos-accessibility-client = "*"
serde = { version = "1", features = ["derive"] }
serde_json = "1"
tao = "*"
tray-icon = "*"
uuid = { version = "1", features = ["v4"] }
wry = "*"
