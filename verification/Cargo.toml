[package]
name = "io-process"
version = "0.1.0"
edition = "2021"
publish = false

[dependencies]
dirs = "6"
log = "0.4"
shellexpand = "3"
thiserror = "2"
tokio = { version = "1", default-features = false, features = ["process", "rt"] }
