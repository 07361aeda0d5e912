[package]
name = "postcard_infomem"
version = "0.1.0"
edition = "2021"
publish = false

[dependencies]
semver = "1"
time = { version = "0.3", features = ["local-offset"] }
rustc_version = "0.4"
