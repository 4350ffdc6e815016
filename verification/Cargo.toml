[package]
name = "conversions"
version = "0.1.0"
edition = "2021"
publish = false

[dependencies]
chrono = "=0.4.45"
reqwest = { version = "=0.11.27", features = ["blocking", "json"] }
serde = "=1.0.229"
serde_derive = "=1.0.229"
serenity = "=0.11.7"
