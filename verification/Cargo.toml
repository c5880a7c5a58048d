[package]
name = "app_machine_id"
version = "0.1.0"
edition = "2021"
publish = false

[dependencies]
hmac-sha256 = "*"
uuid = "*"
