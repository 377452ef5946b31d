[package]
name = "b2_buckets"
version = "0.1.0"
edition = "2021"
publish = false

[dependencies]
base64 = "0.13"
chrono = { version = "0.4", default-features = false, features = ["std"] }
http-types = { version = "2", default-features = false }
md5 = "0.7"
serde = { version = "1", features = ["derive"] }
serde_json = "1"
