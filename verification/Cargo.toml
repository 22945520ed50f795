[package]
name = "decomposer"
version = "0.1.0"
edition = "2021"
publish = false

[dependencies]
creek = "*"
rtrb = "*"
symphonia = "*"
ron = "*"
serde = { version = "*", features = ["derive"] }
directories-next = "*"
log = "*"
env_logger = "*"
eyre = "*"
