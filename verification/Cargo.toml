[package]
name = "roku_ecp"
version = "0.1.0"
edition = "2021"
publish = false

[dependencies]
urlencoding = "=2.1.3"
reqwest = { version = "=0.11.27", default-features = false, features = ["blocking"] }
wake-on-lan = "*"
