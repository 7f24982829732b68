[package]
name = "ma_ui"
version = "0.1.0"
edition = "2021"
publish = false

[dependencies]
uuid = { version = "1", features = ["v4"] }
midly = "0.5"
serde = { version = "1", features = ["derive"] }
serde_json = "1"
dirs = "5"
rtrb = "0.3"
