[package]
name = "ariax_engine"
version = "0.1.0"
edition = "2021"
publish = false

[dependencies]
base64ct = { version = "1", features = ["alloc"] }
bytes = "1"
hmac = "*"
hyper = "1"
quick-xml = "*"
russh = "*"
russh-sftp = "*"
serde = { version = "1", features = ["derive"] }
serde_json = "1"
sha1 = "*"
sha2 = "*"
tokio = { version = "1", features = ["io-util", "macros", "net", "rt", "sync", "time"] }
url = "2"
zeroize = "1"
