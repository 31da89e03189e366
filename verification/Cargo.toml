[package]
name = "actioneer"
version = "0.1.0"
edition = "2021"
publish = false

[dependencies]
semver = "1"
time = { version = "0.3", features = ["parsing", "formatting", "std"] }
serde = { version = "1", features = ["derive"] }
serde_json = "1"
serde_yaml = "0.9"
indexmap = { version = "2", features = ["serde"] }
toml = "0.8"
clap = { version = "4", features = ["derive"] }
crossterm = "0.28"
ratatui = "0.29"
ureq = { version = "3", features = ["json"] }
owo-colors = "4"
