[package]
name = "map_json"
version = "0.1.0"
edition = "2021"
publish = false

[dependencies]
calamine = "=0.36.1"
clap = "=2.34.0"
serde_json = "=1.0.151"
