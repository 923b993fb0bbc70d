[package]
name = "ebb"
version = "0.1.0"
edition = "2021"
publish = false

[dependencies]
rand = "=0.9.5"
tokio = { version = "=1.54.1", features = ["sync", "net", "rt-multi-thread", "macros"] }
serde = { version = "=1.0.229", features = ["derive"] }
serde_json = "=1.0.154"
csv = "=1.4.0"
toml = "=0.9.12"
axum = { version = "=0.8.9", features = ["ws"] }
bevy = { version = "=0.17.3", default-features = false, features = ["std", "bevy_asset", "bevy_color", "bevy_sprite", "bevy_text", "bevy_window"] }
bevy-tokio-tasks = "=0.17.0"
