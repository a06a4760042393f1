[package]
name = "aliyun-openapi-core-rust-sdk"
version = "1.0.0"
edition = "2021"
publish = false

[dependencies]
anyhow = "=1.0.104"
base16ct = { version = "=0.2.0", features = ["alloc"] }
base64 = "=0.21.7"
hmac = "=0.12.1"
md-5 = "=0.10.6"
reqwest = { version = "=0.11.27", default-features = false, features = ["blocking", "json"] }
serde = { version = "=1.0.229", features = ["derive"] }
sha1 = "=0.10.7"
thiserror = "=1.0.69"
time = { version = "=0.3.55", features = ["formatting", "macros"] }
url = "=2.5.8"
uuid = { version = "=1.29.0", features = ["v4"] }

[dev-dependencies]
serde_json = "=1.0.154"
