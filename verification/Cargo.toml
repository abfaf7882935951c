[package]
name = "quota_update"
version = "0.1.0"
edition = "2021"
publish = false

[dependencies]
clap = { version = "*", features = ["derive"] }
libc = "*"
nix = { version = "*", features = ["fs"] }
rustix = { version = "*", features = ["fs"] }
users = "*"
