[package]
name = "clutterlog"
version = "0.1.0"
edition = "2021"
publish = false

[dependencies]
chrono = "*"
kamadak-exif = "*"
image = "*"
rayon = "*"
serde = { version = "*", features = ["derive"] }
toml = "*"
clap = { version = "*", features = ["derive"] }
