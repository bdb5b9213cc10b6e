[package]
name = "json_diff_fuzz"
version = "0.1.0"
edition = "2021"
publish = false

[dependencies]
serde_json = "*"
json = "*"
