[package]
name = "vibebar"
version = "0.1.0"
edition = "2021"
publish = false

[dependencies]
chrono = "0.4"
serde_json = "1"
gtk4 = "0.9"
glib = "0.20"
libpulse-binding = "2"
tokio = { version = "1", features = ["sync", "rt"] }
reqwest = { version = "0.12", default-features = false, features = ["blocking", "rustls-tls"] }
