[package]
name = "slurmdash"
version = "0.1.0"
edition = "2021"
publish = false

[dependencies]
better-panic = "=0.3.0"
chrono = "=0.4.45"
clap = { version = "=4.6.7", features = ["derive"] }
color-eyre = "=0.6.5"
crossterm = "=0.28.1"
ratatui = "=0.28.1"
tracing = "=0.1.44"
tracing-appender = "=0.2.5"
tracing-subscriber = "=0.3.23"
tui-popup = "0.5"
tui-textarea = "=0.6.1"
