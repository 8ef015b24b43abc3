[package]
name = "my_nas"
version = "0.1.0"
edition = "2021"
publish = false

[dependencies]
argon2 = "0.5"
rand = "0.8"
base64 = "0.22"
blake3 = "1"
encoding_rs = "0.8"
urlencoding = "2"
unicode-normalization = "0.1"
mime_guess = "2"
uuid = { version = "1", features = ["v4"] }
chrono = "0.4"
serde = { version = "1", features = ["derive"] }
serde_json = "1"
axum = "0.8"
tokio = { version = "1", features = ["full"] }
tokio-util = { version = "0.7", features = ["io"] }
sqlx = { version = "0.8", default-features = false, features = ["sqlite", "runtime-tokio", "migrate"] }
dav-server = "*"
tower-http = { version = "0.6", features = ["cors"] }
rust-embed = "8"
async-trait = "0.1"
tracing = "0.1"
tracing-subscriber = "0.3"
dotenvy = "0.15"
thiserror = "2"
futures = "0.3"
bytes = "1"
async_zip = { version = "*", features = ["tokio"] }
sysinfo = "*"
