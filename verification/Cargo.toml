[package]
name = "wallcraft"
version = "0.1.0"
edition = "2021"
publish = false

[dependencies]
uuid = { version = "1", features = ["v4", "v5"] }
url = "2"
urlencoding = "2"
base64 = "0.22"
http = "1"
serde = { version = "1", features = ["derive"] }
serde_json = "1"
chrono = "0.4"
image = "0.25"
reqwest = { version = "0.12", features = ["blocking"] }
open = "5"
auto-launch = "0.5"
log = "0.4"
windows-sys = { version = "0.59", features = ["Win32_Foundation", "Win32_UI_WindowsAndMessaging"] }
