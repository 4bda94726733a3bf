[package]
name = "frakt"
version = "0.1.0"
edition = "2021"
publish = false

[dependencies]
rand = "=0.8.8"
uuid = { version = "=1.29.1", features = ["v4"] }
serde = { version = "=1.0.229", features = ["derive"] }
serde_json = "=1.0.154"
tokio = { version = "=1.54.1", features = ["rt-multi-thread", "macros", "net", "io-util", "sync", "signal", "time"] }
actix = "=0.13.5"
actix-web = { version = "=4.18.1", default-features = false, features = ["macros", "ws"] }
actix-web-actors = "=4.3.1"
actix-cors = "=0.7.2"
clap = { version = "=4.6.7", features = ["derive"] }
log = "=0.4.35"
env_logger = { version = "=0.11.11", default-features = false }
chrono = { version = "=0.4.45", default-features = false, features = ["clock"] }
colored = "=2.2.0"
dotenv = "=0.15.0"
toml = "=0.8.23"
lazy_static = "=1.5.1"
ctrlc = "=3.5.2"
image = { version = "=0.24.9", default-features = false }
