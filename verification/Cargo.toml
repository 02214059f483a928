[package]
name = "mutation_events"
version = "0.1.0"
edition = "2021"
publish = false

[dependencies]
apollo-parser = "*"
uuid = { version = "*", features = ["v4"] }
kurrentdb = "*"
tokio = { version = "*", features = ["rt-multi-thread", "macros"] }
serde = { version = "*", features = ["derive"] }
serde_json = { version = "*", features = ["raw_value"] }
