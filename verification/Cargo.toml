[package]
name = "query_pro_bg_rust"
version = "0.1.0"
edition = "2021"
publish = false

[dependencies]
uuid = { version = "=0.8.2", features = ["v4"] }
serde = { version = "=1.0.229", features = ["derive"] }
serde_json = "=1.0.154"
rocket = { version = "0.5", features = ["json"] }
log = "=0.4.35"
log4rs = "=1.4.0"
