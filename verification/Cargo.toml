[package]
name = "nanocl_resources"
version = "0.1.0"
edition = "2021"
publish = false

[dependencies]
chrono = { version = "=0.4.45", default-features = false, features = ["clock", "std", "serde"] }
clap = { version = "=4.6.7", features = ["derive"] }
diesel = { version = "=2.3.14", default-features = false, features = ["postgres", "r2d2", "uuid", "chrono", "serde_json"] }
log = "=0.4.34"
ntex = { version = "=0.6.7", features = ["tokio"] }
ntex-bytes = "=0.1.19"
ntex-codec = "=0.6.2"
ntex-connect = "=0.2.1"
ntex-h2 = "=0.2.3"
ntex-http = "=0.1.9"
ntex-io = "=0.2.9"
ntex-macros = "=0.1.3"
ntex-router = "=0.5.1"
ntex-rt = "=0.4.9"
ntex-service = "=1.0.2"
ntex-tls = "=0.2.4"
ntex-tokio = "=0.2.3"
ntex-util = "=0.2.1"
serde = { version = "=1.0.229", features = ["derive"] }
serde_json = "=1.0.154"
serde_yaml = "=0.9.34"
tabled = "=0.22.0"
uuid = { version = "=1.29.0", features = ["v4", "serde"] }
