[package]
name = "pathmaker"
version = "0.1.0"
edition = "2021"
publish = false

[dependencies]
regex = "1"
regex-syntax = "0.8"
percent-encoding = "2"
hyper = { version = "0.12", default-features = false }
futures = "0.1"
failure = { version = "0.1", default-features = false, features = ["std"] }
