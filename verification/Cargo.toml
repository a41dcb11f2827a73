[package]
name = "mouse_record"
version = "0.1.0"
edition = "2021"
publish = false

[dependencies]
serde = { version = "1", features = ["derive"] }
serde_json = "1"
thiserror = "2"
rdev = "0.5"
enigo = "0.2"
core-graphics = "0.24"
