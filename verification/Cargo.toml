[package]
name = "tracker"
version = "0.1.0"
edition = "2021"
publish = false

[dependencies]
sgp4 = "*"
serde_json = "*"
chrono = "*"
unicode-width = "*"
tokio = { version = "*", features = ["rt", "rt-multi-thread", "sync", "fs", "time", "macros"] }
serde = { version = "*", features = ["derive"] }
toml = "*"
anyhow = "*"
hifitime = "*"
reqwest = { version = "*", default-features = false, features = ["json"] }
isocountry = "*"
reverse_geocoder = "*"
