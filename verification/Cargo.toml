[package]
name = "mikriting"
version = "0.1.0"
edition = "2021"
publish = false

[dependencies]
uuid = { version = "*", features = ["v4"] }
htpasswd-verify = "*"
serde_json = "*"
serde = { version = "*", features = ["derive"] }
reqwest = { version = "*", features = ["json"] }
tokio = { version = "*", features = ["full"] }
tokio-icmp-echo = "*"
actix = "*"
actix-web = "*"
actix-web-actors = "*"
actix-files = "*"
actix-session = { version = "*", features = ["cookie-session"] }
clap = { version = "*", features = ["derive"] }
env_logger = "*"
log = "*"
rand = "*"
thiserror = "*"
config = "*"
