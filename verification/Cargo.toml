[package]
name = "rscan"
version = "0.1.0"
edition = "2021"
publish = false

[dependencies]
regex = "1"
prettytable-rs = { version = "0.10", default-features = false }
tokio = { version = "1", features = ["full"] }
tokio-util = "0.7"
futures = "0.3"
async-trait = "0.1"
clap = { version = "4", features = ["derive"] }
color-eyre = "0.6"
crossterm = { version = "*", features = ["event-stream", "serde"] }
ratatui = "*"
serde = { version = "1", features = ["derive"] }
signal-hook = "0.3"
thiserror = "1"
log = "0.4"
tui-big-text = "*"
tui-nodes = "*"
