[package]
name = "rs_google_photos_sync"
version = "0.1.0"
edition = "2021"
publish = false

[dependencies]
chrono = { version = "0.4", features = ["serde"] }
commander = "*"
cron = "0.6"
ctrlc = "3"
filetime = "0.2"
flexi_logger = "*"
job_scheduler = "1"
log = "0.4"
nickel = "0.11"
opener = "*"
reqwest = { version = "0.12", default-features = false, features = ["blocking", "json", "rustls-tls"] }
scoped_threadpool = "0.1"
serde = { version = "1", features = ["derive"] }
serde_json = "1"
winapi = { version = "0.3", features = ["winuser"] }
windows-service = "*"
