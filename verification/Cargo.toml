[package]
name = "clipchamp"
version = "0.1.0"
edition = "2021"
publish = false

[dependencies]
anyhow = "1"
arboard = "3"
blake3 = "1"
bytes = "1"
clap = { version = "4", features = ["derive"] }
dirs = "6"
futures = "0.3"
hostname = "0.4"
image = { version = "0.25", default-features = false, features = ["png"] }
mdns-sd = "*"
rmp-serde = "1"
serde = { version = "1", features = ["derive"] }
serde_json = "1"
tokio = { version = "1", features = ["full"] }
tokio-util = { version = "0.7", features = ["codec"] }
toml = "0.8"
tracing = "0.1"
tracing-subscriber = { version = "0.3", features = ["env-filter"] }
uuid = { version = "1", features = ["v4", "serde"] }
wayland-clipboard-listener = "*"
