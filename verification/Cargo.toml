[package]
name = "manifest_submission"
version = "0.1.0"
edition = "2021"
publish = false

[dependencies]
chrono = { version = "0.4", default-features = false, features = ["std"] }
color-eyre = "=0.6.5"
crossterm = "=0.27.0"
futures-util = "=0.3.34"
inquire = "=0.7.5"
tokio = { version = "=1.54.1", features = ["fs", "io-util"] }
