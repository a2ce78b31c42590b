[package]
name = "otter_rt"
version = "0.1.0"
edition = "2021"
publish = false

[dependencies]
clap = { version = "4", features = ["derive"] }
crossbeam-channel = "0.5"
rquickjs = { version = "*", features = ["parallel"] }
serde_json = "1"
