[package]
name = "kfilesync"
version = "0.1.0"
edition = "2021"
publish = false

[dependencies]
blake3 = { version = "1", features = ["pure"] }
sha2 = "0.10"
chrono = { version = "0.4", default-features = false, features = ["alloc", "clock"] }
uuid = { version = "1", features = ["v4"] }
rand = "0.8"
base64 = "0.22"
ignore = "0.4"
serde = { version = "1", features = ["derive"] }
serde_json = "1"
tokio = { version = "1", features = ["full"] }
async-trait = "0.1"
thiserror = "1"
rusqlite = { version = "*", features = ["bundled"] }
r2d2 = "0.8"
r2d2_sqlite = "*"
reqwest = { version = "0.12", default-features = false, features = ["json", "rustls-tls"] }
rustls = "0.23"
axum = "0.8"
axum-server = { version = "0.7", features = ["tls-rustls"] }
tower-http = { version = "0.6", features = ["cors"] }
notify = "6"
mdns-sd = "0.11"
keyring = { version = "3", default-features = false }
dirs = "5"
gethostname = "0.4"
rcgen = "0.11"
