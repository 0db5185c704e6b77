[package]
name = "hiverra_portal"
version = "0.1.0"
edition = "2021"
publish = false

[dependencies]
anyhow = "*"
async-compression = { version = "*", features = ["tokio", "gzip"] }
clap = { version = "*", features = ["derive"] }
flate2 = "*"
home = "*"
inquire = "*"
network-interface = "*"
rand = "*"
serde = { version = "*", features = ["derive"] }
socket2 = "*"
tar = "*"
tokio = { version = "*", features = ["full"] }
tokio-tar = "*"
toml = "*"
uuid = { version = "*", features = ["v4"] }
walkdir = "*"
