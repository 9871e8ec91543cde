[package]
name = "mux_harness"
version = "0.1.0"
edition = "2021"
publish = false

[dependencies]
color-eyre = "0.6"
futures = "0.3"
hyper = { version = "0.14", features = ["client", "http1", "http2", "server", "tcp"] }
tokio = { version = "1", features = ["full"] }
tracing = "0.1"
tracing-subscriber = "0.3"
