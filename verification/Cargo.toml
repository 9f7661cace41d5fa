[package]
name = "yeti_benchmarks"
version = "0.1.0"
edition = "2021"
publish = false

[dependencies]
urlencoding = "2"
clap = { version = "4", features = ["derive"] }
tokio = { version = "1", features = ["rt-multi-thread", "macros", "time", "sync"] }
reqwest = { version = "0.12", features = ["json", "stream"] }
tokio-tungstenite = { version = "*", features = ["native-tls"] }
futures-util = "0.3"
native-tls = "0.2"
uuid = { version = "1", features = ["v4"] }
rand = "*"
serde = { version = "1", features = ["derive"] }
serde_json = "1"
serde_yaml = "0.9"
