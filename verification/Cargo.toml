[package]
name = "llm_chat"
version = "0.1.0"
edition = "2021"
publish = false

[dependencies]
serde_json = "1"
serde = { version = "1", features = ["derive"] }
tokio = { version = "1", features = ["rt"] }
ureq = { version = "3", default-features = false, features = ["json"] }
thiserror = "1"
error-stack = "0.5"
tracing = { version = "0.1", features = ["log"] }
