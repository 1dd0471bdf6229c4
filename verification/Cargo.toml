[package]
name = "slirc_client"
version = "0.1.0"
edition = "2021"
publish = false

[dependencies]
tokio = { version = "1", features = ["rt-multi-thread", "net", "time", "macros"] }
crossbeam-channel = "0.5"
chrono = "0.4"
directories = "*"
serde = { version = "1", features = ["derive"] }
serde_json = "1"
regex = "1"
once_cell = "1"
