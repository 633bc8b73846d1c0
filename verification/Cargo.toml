[package]
name = "hypercore"
version = "0.1.0"
edition = "2021"
publish = false

[dependencies]
serde = { version = "1", features = ["derive"] }
serde_json = "1"
yaml_serde = "*"
uniffi = { version = "*", features = ["cli"] }
jni = "0.21"
