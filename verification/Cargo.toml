[package]
name = "notify_bot"
version = "0.1.0"
edition = "2021"
publish = false

[dependencies]
regex = "=1.13.1"
url = "=2.5.8"
tokio = { version = "=1.54.1", features = ["rt-multi-thread", "macros", "sync", "time", "fs"] }
anyhow = "=1.0.104"
parking_lot = "=0.12.5"
dotenv = "=0.15.0"
dptree = "=0.3.0"
tracing = "=0.1.44"
tracing-subscriber = "=0.3.23"
teloxide = { version = "=0.10.1", default-features = false, features = ["macros", "auto-send", "ctrlc_handler", "rustls"] }
takecell = "<0.1.2"
