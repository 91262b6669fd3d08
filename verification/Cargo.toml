[package]
name = "petunia"
version = "0.1.0"
edition = "2021"
publish = false

[dependencies]
uuid = { version = "=1.29.0", features = ["v4"] }
chrono = "=0.4.45"
qrcode = { version = "=0.14.1", default-features = false }
serde = { version = "=1.0.229", features = ["derive"] }
serde_json = "=1.0.154"
dirs = "=6.0.0"
thiserror = "=2.0.21"
tracing = "=0.1.44"
tracing-subscriber = { version = "=0.3.23", features = ["env-filter"] }
tokio = { version = "=1.54.1", features = ["rt", "sync", "time", "macros"] }
futures = "=0.3.34"
iced = { version = "0.14", default-features = false, features = ["tiny-skia", "image", "tokio", "x11"] }
