[package]
name = "buildmeter"
version = "0.1.0"
edition = "2021"
publish = false

[dependencies]
sha2 = "=0.10.9"
rand = "=0.8.8"
tokio = { version = "=1.53.2", features = ["rt-multi-thread", "sync", "time", "fs", "macros", "signal", "net", "io-util"] }
tokio-util = { version = "=0.7.19", features = ["io", "rt"] }
nix = { version = "=0.29.0", features = ["process", "signal", "time", "fs"] }
sqlx = { version = "=0.8.6", default-features = false, features = ["runtime-tokio", "sqlite"] }
axum = { version = "=0.7.9", features = ["ws", "multipart"] }
serde = { version = "=1.0.229", features = ["derive"] }
serde_json = "=1.0.151"
chrono = "=0.4.45"
libc = "=0.2.190"
anyhow = "=1.0.104"
safe-path = "=0.1.0"
urlencoding = "=2.1.3"
mime_guess = "=2.0.5"
itsdangerous = "=0.4.1"
