[package]
name = "station_bridge"
version = "0.1.0"
edition = "2021"
publish = false

[dependencies]
chrono = "0.4"
clap = { version = "4", features = ["derive"] }
color-eyre = "0.6"
ordoo = "*"
paho-mqtt = { version = "*", default-features = false, features = ["bundled"] }
rppal = "*"
serde = { version = "1", features = ["derive"] }
serde_json = "1"
toml = "*"
