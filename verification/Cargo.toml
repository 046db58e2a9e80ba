[package]
name = "qedl"
version = "0.1.0"
edition = "2021"
publish = false

[dependencies]
quick-xml = "0.37"
serde_json = "1"
humansize = "2"
serde = { version = "1", features = ["derive"] }
thiserror = "2"
async-trait = "0.1"
bytes = "1"
tokio = { version = "1", features = ["full"] }
tracing = "0.1"
tracing-subscriber = { version = "0.3", features = ["env-filter"] }
tracing-indicatif = "*"
indicatif = "*"
clap = { version = "4", features = ["derive"] }
color-eyre = "0.6"
owo-colors = "*"
rusb = "*"
serialport = "*"
