[package]
name = "findout"
version = "0.1.0"
edition = "2021"
publish = false

[dependencies]
sha2 = "0.10"
hmac = "0.12"
base64 = "0.22"
image = { version = "0.25", default-features = false, features = ["png", "jpeg"] }
chrono = { version = "0.4", default-features = false, features = ["alloc", "std"] }
url = "2"
serde = { version = "1", features = ["derive"] }
serde_json = "1"
ureq = "2"
keyring = "3"
getrandom = "0.3"
os_info = "3"
arboard = "3"
global-hotkey = "*"
