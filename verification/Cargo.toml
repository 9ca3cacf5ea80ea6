[package]
name = "deck"
version = "0.1.0"
edition = "2021"
publish = false

[dependencies]
log = "0.4"
notify = "*"
pretty_env_logger = "*"
serde_json = "1"
structopt = "0.3"
syntect = { version = "5", default-features = false, features = ["default-fancy"] }
tokio = { version = "1", features = ["full"] }
warp = "0.3"
