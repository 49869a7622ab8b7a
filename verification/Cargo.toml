[package]
name = "cratetorrent"
version = "0.1.0"
edition = "2021"
publish = false

[dependencies]
log = "0.4"
sha1 = "0.10"
tokio = { version = "1", default-features = false, features = ["sync", "rt"] }
