[package]
name = "zip"
version = "0.6.6"
edition = "2021"
publish = false

[dependencies]
aes = "*"
async-stream = "=0.3.6"
byteorder = "=1.5.0"
bytes = "=1.12.1"
bzip2 = "=0.6.1"
flate2 = "=1.1.10"
futures-core = "=0.3.34"
futures-util = "=0.3.34"
hmac = "*"
indexmap = "=2.14.2"
once_cell = "=1.21.4"
parking_lot = { version = "=0.12.5", features = ["arc_lock"] }
pbkdf2 = "*"
podio = "=0.2.0"
rayon = "=1.12.0"
sha1 = "*"
tempfile = "=3.27.0"
time = { version = "=0.3.55", features = ["formatting"] }
tokio = { version = "=1.54.1", features = ["fs", "io-util", "rt", "sync"] }
tokio-util = { version = "=0.7.20", features = ["io", "io-util"] }
zstd = "=0.14.3"
