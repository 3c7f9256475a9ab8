[package]
name = "patronus"
version = "0.1.0"
edition = "2021"
publish = false

[dependencies]
uuid = { version = "=1.29.0", features = ["v4"] }
regex = "=1.13.1"
chrono = "=0.4.45"
serde = { version = "=1.0.229", features = ["derive"] }
serde_json = "=1.0.154"
tokio = { version = "=1.54.1", features = ["full"] }
prometheus = "=0.13.4"
anyhow = "=1.0.104"
async-trait = "=0.1.92"
rand = "=0.8.8"
sha2 = "=0.10.9"
hex = "=0.4.3"
futures = "0.3"
rtnetlink = "0.14"
netlink-packet-route = "0.19"
sysinfo = "0.31"
axum = "0.7"
reqwest = { version = "0.12", default-features = false, features = ["json", "rustls-tls"] }
