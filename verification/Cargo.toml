[package]
name = "panebot"
version = "0.1.0"
edition = "2021"

[dependencies]
anyhow = "=1.0.104"
crossterm = { version = "=0.27.0", features = ["event-stream"] }
dirs = "=5.0.1"
futures-util = "=0.3.34"
native-tls = "=0.2.18"
ratatui = "=0.26.3"
rcgen = "0.13"
serde = { version = "=1.0.229", features = ["derive"] }
serde_json = "=1.0.154"
tokio = { version = "=1.54.1", features = ["full"] }
tokio-native-tls = "0.3"
tokio-tungstenite = { version = "=0.24.0", features = ["native-tls"] }
tungstenite = { version = "=0.24.0", features = ["native-tls"] }
url = "=2.5.8"
