[package]
name = "adguard_rules"
version = "0.1.0"
edition = "2021"
publish = false

[dependencies]
psl = "2"
regex-syntax = "0.8"
regex = "1"
serde = { version = "1", features = ["derive"] }
serde_json = "1"
thiserror = "1"
