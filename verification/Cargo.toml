[package]
name = "futurefin_api"
version = "0.1.0"
edition = "2021"
publish = false

[dependencies]
rust_decimal = { version = "1", features = ["serde-with-str", "maths"] }
chrono = "0.4"
serde = { version = "1", features = ["derive"] }
serde_json = "1"
