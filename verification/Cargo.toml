[package]
name = "reql_driver"
version = "0.1.0"
edition = "2021"
publish = false

[dependencies]
r2d2 = "*"
serde_json = "*"
