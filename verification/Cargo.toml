[package]
name = "osubot"
version = "0.1.0"
edition = "2021"
publish = false

[dependencies]
tokio = { version = "*", features = ["full"] }
async-tungstenite = { version = "*", features = ["tokio-runtime"] }
futures-util = "*"
url = "*"
serde = { version = "*", features = ["derive"] }
toml = "*"
twitch-irc = "*"
irc = "*"
rosu-pp = "*"
log = "*"
env_logger = "*"
