[package]
name = "cloud_storage_sync"
version = "0.1.0"
edition = "2021"
publish = false

[dependencies]
crc32c = "*"
base64 = "*"
cloud-storage = "*"
tokio = { version = "*", features = ["fs", "io-util", "rt"] }
futures = "*"
reqwest = { version = "*", features = ["stream"] }
tokio-stream = { version = "*", features = ["fs"] }
tokio-util = { version = "*", features = ["io"] }
mime = "*"
mime_guess = "*"
log = "*"
