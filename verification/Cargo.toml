[package]
name = "owl_control"
version = "0.1.0"
edition = "2021"
publish = false

[dependencies]
sha256 = "*"
serde = { version = "1", features = ["derive"] }
serde_json = "1"
chrono = { version = "0.4", features = ["serde"] }
uuid = { version = "1", features = ["v4"] }
tar = "*"
tokio = { version = "1", features = ["full"] }
tokio-util = { version = "*", features = ["io"] }
futures = "0.3"
backoff = { version = "0.4", features = ["tokio", "futures"] }
tracing = "0.1"
reqwest = { version = "*", default-features = false, features = ["json", "stream"] }
color-eyre = "*"
steamlocate = "*"
opener = "*"
dunce = "*"
