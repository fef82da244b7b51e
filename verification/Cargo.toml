[package]
name = "dispatch"
version = "0.1.0"
edition = "2021"
publish = false

[dependencies]
anyhow = "=1.0.104"
chrono = { version = "=0.4.45", features = ["serde"] }
crossterm = "=0.29.0"
hex = "=0.4.3"
libc = "=0.2.191"
ratatui = { version = "=0.30.2", features = ["unstable-rendered-line-info"] }
ratatui-textarea = "=0.9.4"
rusqlite = { version = "=0.41.1", features = ["bundled"] }
serde = { version = "=1.0.229", features = ["derive"] }
serde_json = "=1.0.154"
serde_yaml = "=0.9.34"
sha2 = "=0.10.9"
shell-words = "=1.1.1"
tempfile = "=3.27.0"
tokio = { version = "=1.54.1", features = ["full"] }
tracing = "=0.1.44"
ulid = "=1.2.1"
unicode-segmentation = "=1.13.3"
unicode-width = "=0.2.3"
which = "=8.0.6"
