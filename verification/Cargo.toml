[package]
name = "tg_downloader"
version = "0.1.0"
edition = "2021"
publish = false

[dependencies]
regex = "=1.13.1"
serde = { version = "=1.0.229", features = ["derive"] }
serde_json = "=1.0.154"
teloxide = { version = "=0.17.0", default-features = false, features = ["macros", "ctrlc_handler", "rustls"] }
tokio = { version = "=1.54.1", features = ["full"] }
tracing = "=0.1.44"
tracing-subscriber = { version = "=0.3.23", features = ["json", "env-filter"] }
thiserror = "=2.0.21"
async-tempfile = "=0.8.0"
ffprobe = "=0.4.0"
bytes = "=1.12.1"
futures = "=0.3.34"
dptree = "=0.5.1"
itertools = "=0.15.0"
takecell = "<0.1.2"
