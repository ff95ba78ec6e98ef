[package]
name = "photo"
version = "0.1.0"
edition = "2021"
publish = false

[dependencies]
natord = "=1.0.9"
serde = { version = "=1.0.229", features = ["derive"] }
serde_json = "=1.0.154"
image = "=0.24.9"
quick-xml = "=0.36.2"
kamadak-exif = "=0.5.5"
jpeg-decoder = "=0.3.2"
rawler = "*"
resvg = "*"

[dev-dependencies]
tempfile = "=3.27.0"
