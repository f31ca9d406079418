[package]
name = "drone_teleport"
version = "0.1.0"
edition = "2021"
publish = false

[dependencies]
clap = { version = "3.2", features = ["derive", "env"] }
colored = "2"
glob = "0.3"
human_bytes = "*"
openssh = "*"
openssh-sftp-client = "*"
rand = "0.8"
serde_json = "1"
tar = "0.4"
tokio = { version = "1", features = ["rt-multi-thread", "macros", "io-util", "fs", "time"] }
zstd = "*"
