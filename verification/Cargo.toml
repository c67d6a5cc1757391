[package]
name = "tokos"
version = "0.1.0"
edition = "2021"
publish = false

[dependencies]
regex = "1"
serde_json = "1"
clap = { version = "4", features = ["derive", "env"] }
clap_complete = "4"
crossterm = "0.28"
ratatui = "0.29"
log = "0.4"
tracing = { version = "0.1", features = ["log"] }
tracing-subscriber = { version = "0.3", features = ["env-filter", "json"] }
ureq = "2"
