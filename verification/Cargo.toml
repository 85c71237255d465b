[package]
name = "rust_web_cgi"
version = "0.1.0"
edition = "2021"
publish = false

[dependencies]
http = "1"
log = "0.4"
env_logger = "0.11"
