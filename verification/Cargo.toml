[package]
name = "j_gcal"
version = "0.1.0"
edition = "2021"
publish = false

[dependencies]
chrono = "*"
config = "*"
derive_more = { version = "*", features = ["from"] }
directories = "*"
futures = "*"
google-calendar3 = "*"
ratatui = "*"
ratatui-textarea = "*"
serde = { version = "*", features = ["derive"] }
shellexpand = "*"
tokio = { version = "*", features = ["full"] }
tracing = "*"
tracing-error = "*"
tracing-subscriber = { version = "*", features = ["env-filter"] }
