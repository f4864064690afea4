[package]
name = "ticket_queue"
version = "0.1.0"
edition = "2021"
publish = false

[dependencies]
chrono = "=0.4.45"
serde = { version = "=1.0.229", features = ["derive"] }
serde_json = "1.0"
serialport = { version = "=4.10.1", default-features = false }
winapi = { version = "=0.3.9", features = ["winspool", "minwindef"] }
