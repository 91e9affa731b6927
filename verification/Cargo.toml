[package]
name = "mettle"
version = "0.2.0"
edition = "2021"
publish = false

[dependencies]
pin-project-lite = "0.2"
tokio = { version = "1", features = ["time", "rt"] }
tracing = "0.1"
