[package]
name = "cgroup_oom"
version = "0.1.0"
edition = "2021"
publish = false

[dependencies]
futures = "0.3"
libc = "0.2"
nix = "0.26"
tokio = { version = "1", features = ["io-util", "net", "rt"] }
