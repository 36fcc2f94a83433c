[package]
name = "bus_monitor"
version = "0.1.0"
edition = "2021"
publish = false

[dependencies]
zbus = "*"
atspi = "*"
tokio = { version = "*", features = ["rt-multi-thread", "macros", "time", "sync"] }
tokio-stream = "*"
crossterm = "*"
ratatui = "*"
tracing = "*"
futures-lite = "*"
