[package]
name = "xarf"
version = "0.1.4"
edition = "2021"
publish = false

[dependencies]
base64 = "*"
chrono = "*"
jsonschema = { version = "*", default-features = false }
md-5 = "*"
serde = { version = "1", features = ["derive"] }
serde_json = "1"
sha1 = "*"
sha2 = "*"
thiserror = "*"
uuid = { version = "1", features = ["v4"] }
