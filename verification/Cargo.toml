[package]
name = "cdir"
version = "0.1.0"
edition = "2021"
publish = false

[dependencies]
nucleo-matcher = "=0.3.1"
rusqlite = { version = "=0.32.1", features = ["bundled"] }
ratatui = "=0.29.0"
crossterm = { version = "=0.28.1", features = ["event-stream"] }
tokio = { version = "=1.54.1", features = ["full"] }
tokio-stream = "=0.1.19"
tui-textarea = "=0.7.0"
serde = { version = "=1.0.229", features = ["derive"] }
serde_yaml = "=0.9.34"
chrono = "=0.4.45"
clap = { version = "=4.6.7", features = ["derive"] }
color-eyre = "=0.6.5"
dark-light = "=2.0.0"
dirs = "=6.0.0"
log = "=0.4.35"
log4rs = "=1.4.0"
yamlpath = "=1.26.1"
yamlpatch = "=1.26.1"
tree-sitter-iter = "=1.26.1"

[dev-dependencies]
tempfile = "=3.27.0"
