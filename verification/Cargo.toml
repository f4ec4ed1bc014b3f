[package]
name = "model2api"
version = "0.1.0"
edition = "2021"
publish = false

[dependencies]
aes = "=0.8.4"
anyhow = "=1.0.104"
axum = { version = "=0.8.9", features = ["multipart"] }
base64 = "=0.22.1"
cbc = { version = "=0.1.2", features = ["alloc"] }
chrono = "=0.4.45"
flate2 = "=1.1.10"
hex = "=0.4.3"
hmac = "=0.12.1"
image = { version = "=0.25.10", default-features = false, features = ["png", "jpeg", "webp"] }
imagesize = "=0.13.0"
indexmap = "=2.14.2"
mime_guess = "=2.0.5"
parking_lot = "=0.12.5"
rand = "=0.8.8"
regex = "=1.13.1"
serde_json = { version = "=1.0.154", features = ["preserve_order"] }
sha1 = "=0.10.7"
sha2 = "=0.10.9"
subtle = "=2.6.1"
tar = "=0.4.46"
tokio = { version = "=1.54.1", features = ["full"] }
tokio-stream = "=0.1.19"
tower-http = { version = "=0.6.11", features = ["cors"] }
tracing = "=0.1.44"
tracing-subscriber = { version = "=0.3.23", features = ["env-filter"] }
url = "=2.5.8"
uuid = { version = "=1.29.0", features = ["v4"] }
zip = { version = "=2.6.1", default-features = false, features = ["deflate"] }
