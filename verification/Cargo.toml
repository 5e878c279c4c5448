[package]
name = "prest_host"
version = "0.1.0"
edition = "2021"
publish = false

[dependencies]
password-auth = "1"
uuid = { version = "1", features = ["v7"] }
mime_guess = "2"
hex = "0.4"
semver = "1"
gluesql-core = "*"
sled = "0.34"
bitcode = { version = "0.6", features = ["serde"] }
serde = { version = "1", features = ["derive"] }
serde_json = "1"
tokio = { version = "1", features = ["full"] }
axum = "0.7"
chrono = "0.4"
tracing = "0.1"
anyhow = "1"
thiserror = "1"
ansi-to-html = "*"
rev_buf_reader = "*"
sysinfo = "0.31"
directories = "5"
dotenvy = "0.15"
