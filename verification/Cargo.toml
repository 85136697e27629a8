[package]
name = "rustor"
version = "0.1.0"
edition = "2021"
publish = false

[dependencies]
aes-gcm = "0.10"
sha2 = "0.10"
x25519-dalek = "2"
rand = "0.8"
tokio = { version = "1", features = ["full"] }
tokio-util = "*"
log = "*"
env_logger = "*"
clap = { version = "4", features = ["derive"] }
anyhow = "1"
reqwest = { version = "*", features = ["json"] }
actix-web = "4"
const_format = "*"
gerevs = "*"
serde = { version = "1", features = ["derive"] }
