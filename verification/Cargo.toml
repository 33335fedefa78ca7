[package]
name = "chat_gateway"
version = "0.1.0"
edition = "2021"
publish = false

[dependencies]
dashmap = "=6.2.1"
tokio = { version = "=1.53.2", features = ["sync", "rt-multi-thread", "macros", "time"] }
base64 = "=0.23.1"
warp = { version = "=0.4.3", features = ["server"] }
futures = "=0.3.34"
reqwest = { version = "=0.12.28", default-features = false, features = ["json", "stream", "blocking", "rustls-tls"] }
reqwest-eventsource = "=0.6.0"
serde = { version = "=1.0.229", features = ["derive"] }
serde_json = "=1.0.151"
once_cell = "=1.21.4"
uuid = { version = "=1.27.0", features = ["v4"] }
tokio-stream = "=0.1.19"
dotenv = "=0.15.0"
tracing-subscriber = "=0.3.23"
anyhow = "=1.0.104"
