[package]
name = "kashimo"
version = "0.1.0"
edition = "2021"
publish = false

[dependencies]
azalea = "=0.12.0"
fixed = "1"
kiddo = "=5.3.3"
lock_api = "0.4"
parking_lot = "0.12"
tokio = { version = "1", features = ["full"] }
