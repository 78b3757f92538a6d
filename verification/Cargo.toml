[package]
name = "mmpc_client"
version = "0.1.0"
edition = "2021"
publish = false

[dependencies]
hex = "0.4"
serde = { version = "1", features = ["derive"] }
serde_json = "1"
clap = "2"
log = "0.4"
fern = "0.6"
chrono = "0.4"
csv = "1"
better-panic = "0.2"
