[package]
name = "thermostat"
version = "0.1.0"
edition = "2021"
publish = false

[dependencies]
serde = { version = "*", features = ["derive"] }
serde-json-core = "*"
heapless = "*"
miniconf = "*"
idsp = "*"
