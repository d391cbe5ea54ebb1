[package]
name = "sdb"
version = "0.1.0"
edition = "2021"
publish = false

[dependencies]
nix = { version = "=0.31.3", features = ["ptrace", "signal", "process"] }
tokio = { version = "=1.53.2", features = ["rt", "macros", "sync", "time", "io-util", "process"] }
futures = "=0.3.34"
ratatui = "=0.30.2"
crossterm = { version = "=0.29.0", features = ["event-stream"] }
tui-input = "=0.15.5"
clap = { version = "=4.6.7", features = ["derive"] }
ariadne = "=0.6.0"
