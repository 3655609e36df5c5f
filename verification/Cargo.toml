[package]
name = "pushpull_signals"
version = "0.1.0"
edition = "2021"
publish = false

[dependencies]
futures = { version = "0.3", features = ["thread-pool"] }
futures-signals = "0.3"
