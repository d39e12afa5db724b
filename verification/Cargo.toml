[package]
name = "s3_core"
version = "0.1.0"
edition = "2021"
publish = false

[dependencies]
anyhow = "*"
chrono = "*"
hmac = "*"
http = "*"
sha2 = "*"
wstd = "*"
xml-rs = "*"

[dev-dependencies]
hex = "*"
percent-encoding = "*"
