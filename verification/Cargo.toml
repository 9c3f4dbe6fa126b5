[package]
name = "chalybs"
version = "0.1.0"
edition = "2021"
publish = false

[dependencies]
raw-cpuid = "11"
serde = { version = "1", features = ["derive"] }
serde_json = "1"
toml = "0.8"
clap = { version = "4", features = ["derive"] }
nix = { version = "0.29", features = ["sched", "mount", "signal", "process", "fs"] }
procfs = "*"
libc = "0.2"
rumqttc = { version = "*", default-features = false }
tracing = "0.1"
tracing-subscriber = { version = "0.3", features = ["env-filter", "json"] }
ratatui = "*"
crossterm = "*"
viuer = { version = "*", default-features = false }
