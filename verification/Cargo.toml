[package]
name = "muuf"
version = "0.1.0"
edition = "2021"
publish = false

[dependencies]
anyhow = "*"
async-trait = "*"
axum = "*"
base64 = "*"
bytes = "*"
chrono = "*"
clap = { version = "*", features = ["derive"] }
data-encoding = "*"
directories = "*"
futures = "*"
http = "*"
lava_torrent = "*"
magnet-url = "*"
quick-xml = { version = "*", features = ["serialize"] }
regex = "*"
reqwest = { version = "*", features = ["json"] }
scraper = "*"
serde = { version = "*", features = ["derive"] }
tokio = { version = "*", features = ["full"] }
toml = "*"
tower-http = { version = "*", features = ["cors"] }
tracing = "*"
tracing-error = "*"
tracing-subscriber = { version = "*", features = ["env-filter"] }
transmission-rpc = "*"
