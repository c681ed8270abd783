[package]
name = "ficant_application"
version = "0.1.0"
edition = "2021"
publish = false

[dependencies]
sha2 = "0.10"
chrono = "0.4"
chrono-tz = "0.10"
async-trait = "0.1"
