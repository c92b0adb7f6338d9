[package]
name = "ekphos"
version = "0.1.0"
edition = "2021"
publish = false

[dependencies]
chrono = { version = "0.4", default-features = false, features = ["alloc"] }
unicode-width = "0.2"
unicode-segmentation = "1"
serde = { version = "1", features = ["derive"] }
toml = "0.8"
dirs = "5"
