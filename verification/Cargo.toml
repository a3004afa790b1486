[package]
name = "mcml_game"
version = "0.1.0"
edition = "2021"
publish = false

[dependencies]
serde = { version = "=1.0.229", features = ["derive"] }
serde_json = "=1.0.154"
uuid = { version = "=1.29.0", features = ["v4", "serde"] }
regex = "=1.13.1"
chrono = { version = "=0.4.45", features = ["serde"] }
toml = "=0.8.23"
url = "=2.5.8"
if-addrs = "*"
zip = { version = "2", default-features = false, features = ["deflate"] }
encoding_rs = "0.8"
encoding_rs_io = "0.1"
