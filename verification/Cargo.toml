[package]
name = "guild_xp"
version = "0.1.0"
edition = "2021"
publish = false

[dependencies]
rand = "0.8"
thousands = "0.2"
time = "0.3"
deadpool-postgres = "0.10"
dotenv = "0.15"
fancy-regex = "0.11"
futures = "0.3"
http = "0.2"
hyper = { version = "0.14", features = ["client", "http1", "http2", "tcp"] }
hyper-tls = "0.5"
once_cell = "1"
parking_lot = "0.12"
serde_json = "1"
skia-safe = "0.62"
thiserror = "1"
tokio = { version = "1", features = ["macros", "rt-multi-thread", "time"] }
tokio-postgres = { version = "0.7", features = ["with-time-0_3"] }
twilight-gateway = "0.15"
twilight-http = "0.15"
twilight-interactions = "0.15"
twilight-model = "0.15"
twilight-standby = "0.15"
twilight-util = { version = "0.15", features = ["builder"] }
twilight-validate = "0.15"
