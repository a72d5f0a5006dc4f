[package]
name = "mpd_fresh"
version = "0.1.0"
edition = "2021"
publish = false

[dependencies]
percent-encoding = "*"
serde = { version = "*", features = ["derive"] }
serde_yaml = "*"
clap = "*"
reqwest = { version = "*", default-features = false, features = ["blocking", "json", "rustls-tls"] }
