[package]
name = "herdr"
version = "0.6.10-mx.1"
edition = "2021"
publish = false

[dependencies]
base64 = "=0.22.1"
crossterm = "=0.29.0"
ctrlc = "=3.5.2"
miniz_oxide = "=0.8.9"
serde = { version = "=1.0.229", features = ["derive"] }
serde_json = "=1.0.154"
shlex = "=1.3.0"
tokio = { version = "=1.54.1", features = ["rt", "sync", "time", "macros"] }
tracing = "=0.1.44"
unicode-width = "=0.2.3"
