[package]
name = "twitch_clips"
version = "0.1.0"
edition = "2021"
publish = false

[dependencies]
dotenv = "0.15"
env_logger = "0.10"
log = "0.4"
rand = "0.8"
rayon = "1"
reqwest = "0.12"
serde = { version = "1", features = ["derive"] }
serde_json = "1"
tokio = { version = "1", features = ["rt-multi-thread", "macros"] }
youtube_dl = { version = "*", features = ["tokio"] }
