[package]
name = "submig_lib"
version = "0.1.0"
edition = "2021"
publish = false

[dependencies]
regex = "1"
syn = { version = "2", features = ["full"] }
clap = { version = "4", features = ["derive", "env", "cargo"] }
log = "0.4"
env_logger = "*"
thiserror = "*"
