[package]
name = "send_file_core"
version = "0.1.0"
edition = "2021"
publish = false

[dependencies]
axum = { version = "0.6", features = ["multipart"] }
once_cell = "1"
portpicker = "0.1"
tokio = { version = "1", features = ["macros", "rt-multi-thread", "fs", "io-util", "net"] }
tower-http = { version = "0.4", features = ["cors", "limit"] }
tracing-subscriber = { version = "0.3", features = ["env-filter"] }
