[package]
name = "ferrum"
version = "0.1.0"
edition = "2021"
publish = false

[dependencies]
rustc-hash = "2"
regex = "1"
ipnet = "2"
moka = { version = "0.12", features = ["sync"] }
toml = "0.8"
toml_edit = "0.22"
serde = { version = "1", features = ["derive"] }
maxminddb = "0.24"
syslog = "7"
reqwest = { version = "0.12", default-features = false, features = ["blocking", "json"] }
prometheus = { version = "0.13", default-features = false }
lazy_static = "1"
tokio = { version = "1", features = ["rt", "net", "time", "io-util", "macros"] }
async-trait = "0.1"
bytes = "1"
clap = { version = "4", features = ["derive", "env"] }
anyhow = "1"
tempfile = "3"
tracing = "0.1"
tracing-subscriber = { version = "0.3", features = ["json", "env-filter"] }
inventory = "0.3"
pingora = { version = "0.4", default-features = false, features = ["proxy"] }
pingora-core = { version = "0.4", default-features = false }
pingora-proxy = { version = "0.4", default-features = false }
pingora-http = "0.4"
