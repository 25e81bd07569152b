[package]
name = "hilen"
version = "0.1.0"
edition = "2021"
publish = false

[dependencies]
web-time = "=1.1.0"
log = "=0.4.35"
image = { version = "=0.25.10", default-features = false, features = ["png", "gif"] }
mdns-sd = "=0.21.7"
