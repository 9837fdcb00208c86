[package]
name = "startinpy"
version = "0.1.0"
edition = "2021"
publish = false

[dependencies]
startin = "*"
serde_json = "*"

[dev-dependencies]
geojson = "*"
