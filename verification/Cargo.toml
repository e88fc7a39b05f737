[package]
name = "remote_table"
version = "0.1.0"
edition = "2021"
publish = false

[dependencies]
datafusion = { version = "*", default-features = false }
futures = "*"
