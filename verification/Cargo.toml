[package]
name = "orchestrator"
version = "0.1.0"
edition = "2021"
publish = false

[dependencies]
regex = "1"
tokio = { version = "1", features = ["rt-multi-thread", "macros", "sync", "time", "process", "fs", "net", "signal", "io-util"] }
axum = "0.7"
serde = { version = "1", features = ["derive"] }
serde_json = "1"
bincode = "1"
chrono = "0.4"
clap = { version = "4", features = ["derive"] }
log = "0.4"
log4rs = "1"
redb = "2"
reqwest = { version = "0.12", default-features = false, features = ["json"] }
sysinfo = "0.30"
procfs = "0.16"
local-ip-address = "0.6"
find_mountpoint = "1"
tonic = "0.12"
