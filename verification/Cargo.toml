[package]
name = "membership_core"
version = "0.1.0"
edition = "2021"
publish = false

[dependencies]
base64 = "0.22"
jsonwebtoken = "9"
md5 = "0.7"
rand = "0.9"
sha2 = "0.10"
uuid = { version = "1", features = ["v4"] }
