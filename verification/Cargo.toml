[package]
name = "ajour_core"
version = "0.1.0"
edition = "2021"
publish = false

[dependencies]
glob = "0.3"
serde_json = "1"
serde = { version = "1", features = ["derive"] }
isahc = "1"
