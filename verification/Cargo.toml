[package]
name = "hdfs_walk"
version = "0.1.0"
edition = "2021"
publish = false

[dependencies]
glob = "0.2"
quick-xml = "0.22"
nix = { version = "0.29", features = ["fs"] }
libc = "0.2"
clap = "2"
dirs = "5"
toml = "0.5"
serde = { version = "1", features = ["derive"] }
log = "0.4"
env_logger = "0.10"
