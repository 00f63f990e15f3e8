[package]
name = "cli_kit"
version = "0.1.0"
edition = "2021"
publish = false

[dependencies]
rand = "0.8"
chrono = "0.4"
crossterm = "0.26"
clap = "3"
colored = "2"
sysinfo = "0.29"
confique = "0.2"
serde = { version = "1", features = ["derive"] }
ini = "1.3.0"
tokio = { version = "1", features = ["full"] }
futures = "0.3"
async-recursion = "1"
