[package]
name = "pencilwm"
version = "0.1.0"
edition = "2021"
publish = false

[dependencies]
penrose = "=0.3.6"
penrose_ui = "=0.3.6"
tracing-subscriber = { version = "=0.3.23", features = ["json", "env-filter"] }
