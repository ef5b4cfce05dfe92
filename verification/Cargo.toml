[package]
name = "loco-gen"
version = "0.1.0"
edition = "2021"
publish = false

[dependencies]
chrono = { version = "0.4", features = ["serde"] }
duct = "0.13"
rrgen = "0.5"
serde_json = "1"
tracing = "0.1"
