[package]
name = "tracexec"
version = "0.1.0"
edition = "2021"
publish = false

[dependencies]
nix = { version = "*", features = ["ptrace", "signal", "uio", "process"] }
tokio = { version = "*", features = ["sync", "rt-multi-thread", "macros"] }
clap = { version = "*", features = ["derive"] }
libc = "*"
