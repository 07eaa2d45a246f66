[package]
name = "aliyun_oss_rust_sdk"
version = "0.1.0"
edition = "2021"
publish = false

[dependencies]
anyhow = "1"
base64 = "0.22"
chrono = "0.4"
hmac-sha1 = "*"
reqwest = { version = "0.12", default-features = false, features = ["blocking"] }
urlencoding = "2"
