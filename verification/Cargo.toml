[package]
name = "nextbus_sign_server"
version = "0.1.0"
edition = "2021"
publish = false

[dependencies]
anyhow = "1"
crossbeam = "0.8"
env_logger = "*"
log = "0.4"
rouille = "3"
thiserror = "*"
