[package]
name = "mkswap"
version = "0.1.0"
edition = "2021"
publish = false

[dependencies]
clap = "=4.6.7"
linux-raw-sys = { version = "=0.9.4", features = ["general", "ioctl"] }
nix = { version = "=0.30.1", features = ["fs"] }
uucore = { version = "=0.1.0", features = ["libc"] }
uuid = { version = "=1.29.0", features = ["v4"] }
