[package]
name = "running_summary"
version = "0.1.0"
edition = "2021"
publish = false

[dependencies]
rustc_apfloat = "*"
redis-module = "*"
serde = "*"
serde_json = "*"
