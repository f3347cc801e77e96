[package]
name = "tower_http_req_id"
version = "0.1.0"
edition = "2021"
publish = false

[dependencies]
uuid = { version = "*", features = ["v4"] }
mac_address = "*"
http = "*"
tower-layer = "*"
tower-service = "*"
bytes = "*"
