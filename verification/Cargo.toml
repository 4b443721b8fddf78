[package]
name = "comfyui_desktop"
version = "0.1.0"
edition = "2021"
publish = false

[dependencies]
argon2 = "*"
sha2 = "*"
hex = "*"
rand = "*"
chrono = "*"
flate2 = "*"
png = "*"
jxl-oxide = "*"
jxl-encoder = "*"
image = { version = "*", default-features = false, features = ["png", "webp", "jpeg"] }
uuid = { version = "*", features = ["v4"] }
url = "*"
serde = { version = "*", features = ["derive"] }
serde_json = "*"
dirs = "*"
csv = "*"
base64 = "*"
percent-encoding = "*"
