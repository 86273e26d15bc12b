[package]
name = "snapshot_manager"
version = "0.1.0"
edition = "2021"
publish = false

[dependencies]
chrono = "0.4"
clap = "2"
env_logger = "0.10"
iron = "0.6"
log = "0.4"
