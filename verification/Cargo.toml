[package]
name = "service_commons"
version = "0.1.0"
edition = "2021"
publish = false

[dependencies]
actix-web = "4"
bytes = "1"
chrono = "0.4"
futures = "0.3"
log = "0.4"
prometheus = "0.13"
reqwest = { version = "0.12", default-features = false, features = ["json", "stream"] }
serde = { version = "1", features = ["derive"] }
serde_json = "1"
slog = "2"
slog-async = "2"
slog-envlogger = "2"
slog-json = "2"
tokio = { version = "1", features = ["rt", "sync", "time"] }
url = "2"
