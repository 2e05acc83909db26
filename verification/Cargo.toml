[package]
name = "actix-web-validator"
version = "0.1.0"
edition = "2021"
publish = false

[dependencies]
actix-router = "0.5"
actix-web = { version = "4", default-features = false }
futures = "0.3"
log = "0.4"
mime = "0.3"
serde = "1"
serde_json = "1"
serde_qs = "0.13"
serde_urlencoded = "0.7"
thiserror = "1"
validator = "0.18"
