[package]
name = "mod_tile_rs"
version = "0.1.0"
edition = "2021"
publish = false

[dependencies]
chrono = "0.4"
md5 = "0.7"
mime = "0.3"
scan_fmt = "0.2"
serde = { version = "1", features = ["derive"] }
serde_json = "1"
