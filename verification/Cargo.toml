[package]
name = "nyanpasu_utils"
version = "0.1.0"
edition = "2021"
publish = false

[dependencies]
dirs-next = "2"
kill_tree = { version = "*", features = ["tokio"] }
nix = { version = "*", features = ["signal", "user"] }
os_pipe = "1"
parking_lot = "0.12"
serde = { version = "1", features = ["derive"] }
shared_child = "1"
sysinfo = "*"
thiserror = "1"
tokio = { version = "1", features = ["rt", "rt-multi-thread", "process", "fs", "io-util", "sync", "time", "macros"] }
tracing = "0.1"
