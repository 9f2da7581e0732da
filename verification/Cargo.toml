[package]
name = "appliance_availability"
version = "0.1.0"
edition = "2021"
publish = false

[dependencies]
serde_json = "=1.0.151"
scraper = "=0.27.0"
fuzzy-matcher = "=0.3.7"
urlencoding = "=2.1.3"
chrono = "=0.4.45"
serde = { version = "=1.0.229", features = ["derive"] }
reqwest = { version = "=0.13.5", default-features = false, features = ["blocking", "cookies", "form"] }
office = "=0.8.1"
duration-string = "=0.5.3"
