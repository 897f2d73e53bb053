[package]
name = "cheat_toolkit"
version = "0.1.0"
edition = "2021"
publish = false

[dependencies]
bytes = "1"
nix = { version = "*", features = ["uio", "process"] }
tokio = { version = "1", features = ["rt-multi-thread", "macros", "sync", "time", "process", "io-util"] }
evdev = "0.12"
