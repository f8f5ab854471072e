[package]
name = "prism_book"
version = "0.1.0"
edition = "2021"
publish = false

[dependencies]
heapless = { version = "0.7", features = ["serde"] }
hash32 = "0.2"
serde = { version = "1", features = ["derive"] }
serde_json = "1"
serde-json-core = "0.5"
chrono = "0.4"
tokio = { version = "1", features = ["rt-multi-thread", "net", "time", "sync", "macros"] }
tokio-tungstenite = "0.20"
futures-util = "0.3"
