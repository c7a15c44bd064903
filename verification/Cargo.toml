[package]
name = "spatialbench_core"
version = "0.1.0"
edition = "2021"
publish = false

[dependencies]
spatialbench = "=0.2.0"
tokio = { version = "*", features = ["rt-multi-thread", "macros"] }
clap = { version = "*", features = ["derive"] }
log = "*"
env_logger = "*"
num_cpus = "*"
anyhow = "*"
