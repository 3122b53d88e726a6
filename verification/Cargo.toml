[package]
name = "ottobangumi"
version = "0.1.0"
edition = "2021"
publish = false

[dependencies]
anyhow = "1"
dotenv = "0.15"
dptree = "0.3"
env_logger = "0.11"
lava_torrent = "=0.11.1"
log = "0.4"
polodb_core = "=4.4.2"
qbit-api-rs = "=0.2.0"
regex = "=1.13.1"
reqwest = "=0.11.27"
rss = "=2.1.2"
scraper = "=0.29.0"
serde = { version = "1", features = ["derive"] }
# teloxide depends on takecell; 0.1.2 asks for rustc 1.96, so it is held at 0.1.1
takecell = "=0.1.1"
teloxide = { version = "=0.12.2", features = ["macros"] }
thiserror = "1"
tokio = { version = "1", features = ["full"] }
