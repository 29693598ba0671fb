[package]
name = "default_client"
version = "0.1.0"
edition = "2021"
publish = false

[dependencies]
bytes = "1"
http = "1"
http-body-util = "0.1"
os_info = { version = "3", default-features = false }
reqwest = { version = "0.12", default-features = false, features = ["json", "stream", "rustls-tls"] }
serde = { version = "1", features = ["derive"] }
serde_json = { version = "1", features = ["raw_value"] }
time = { version = "0.3", features = ["formatting"] }
tokio = { version = "1", features = ["rt"] }
tracing = "0.1"
