[package]
name = "multica_filter"
version = "0.1.0"
edition = "2021"
publish = false

[dependencies]
serde_json = "1"
regex = "1"
anyhow = "1"
