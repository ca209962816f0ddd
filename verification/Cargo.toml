[package]
name = "loomterm"
version = "0.4.0"
edition = "2021"
publish = false

[dependencies]
base64 = "0.22"
bytes = "1"
clap = { version = "4", features = ["derive"] }
crossterm = { version = "*", features = ["event-stream"] }
directories = "*"
fs4 = "*"
futures = "0.3"
nix = { version = "*", features = ["signal", "user", "socket", "process"] }
ratatui = "*"
rusqlite = { version = "*", features = ["bundled"] }
serde = { version = "1", features = ["derive"] }
serde_json = "1"
thiserror = "2"
tokio = { version = "1", features = ["full"] }
tokio-util = { version = "0.7", features = ["codec"] }
toml = "*"
toml_edit = "*"
tracing = "0.1"
tracing-subscriber = { version = "0.3", features = ["env-filter"] }
uuid = { version = "1", features = ["v7"] }
