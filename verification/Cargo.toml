[package]
name = "cloudreve_sync"
version = "0.1.0"
edition = "2021"
publish = false

[dependencies]
dashmap = "=6.2.1"
anyhow = "=1.0.104"
thiserror = "=2.0.21"
nt-time = "=0.15.0"
fuser = "=0.18.0"
libc = "=0.2.191"
tokio = { version = "=1.54.1", features = ["rt-multi-thread", "sync", "time", "macros"] }
tracing = "=0.1.44"
dirs = "=7.0.0"
notify-rust = "=4.18.2"
dark-light = "=3.0.0"
url = "2"
sha2 = "0.10"
