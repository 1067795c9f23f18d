[package]
name = "lineage_stats"
version = "0.1.0"
edition = "2021"
publish = false

[dependencies]
regex = "1"
indexmap = { version = "2", features = ["serde"] }
serde = { version = "1", features = ["derive"] }
axum = "0.8"
axum-extra = { version = "*", features = ["typed-header"] }
axum-client-ip = "*"
tokio = { version = "1", features = ["full"] }
tower-http = { version = "*", features = ["fs"] }
sqlx = { version = "0.8", default-features = false, features = ["runtime-tokio", "sqlite", "migrate"] }
arc-swap = "1"
asn-db2 = "*"
flate2 = "1"
ureq = "*"
cached = { version = "*", features = ["async"] }
log = "0.4"
