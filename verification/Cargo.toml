[package]
name = "consumption_tracker"
version = "0.1.0"
edition = "2021"
publish = false

[dependencies]
dotenv = "0.15"
env_logger = "0.11"
futures-util = { version = "0.3", features = ["sink"] }
log = "0.4"
serde = { version = "1", features = ["derive"] }
serde_json = "1"
subxt = "0.38"
tokio = { version = "1", features = ["macros", "net", "rt-multi-thread", "sync", "time"] }
tokio-stream = { version = "0.1", features = ["net", "sync"] }
tokio-tungstenite = "0.24"
warp = { version = "0.3", default-features = false }
