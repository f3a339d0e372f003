[package]
name = "eraft"
version = "0.1.0"
edition = "2021"
publish = false

[dependencies]
protobuf = "2"
bytes = "1"
thiserror = "1"
anyhow = "1"
