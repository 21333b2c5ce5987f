[package]
name = "meter_ingest"
version = "0.1.0"
edition = "2021"
publish = false

[dependencies]
chrono = "*"
postgres = { version = "*", features = ["with-chrono-0_4"] }
serde = { version = "*", features = ["derive"] }
toml = "*"
