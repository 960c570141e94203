[package]
name = "axon_cluster"
version = "0.1.0"
edition = "2021"
publish = false

[dependencies]
anyhow = "*"
async-trait = "*"
axum = "*"
clap = { version = "*", features = ["derive"] }
dotenv = "*"
futures = "*"
libp2p = { version = "*", default-features = false, features = ["tokio", "tcp", "noise", "yamux", "pnet", "mdns", "request-response", "macros", "ed25519"] }
reqwest = { version = "*", default-features = false, features = ["json"] }
serde = { version = "*", features = ["derive"] }
serde_json = "*"
tokio = { version = "*", features = ["macros", "rt-multi-thread", "sync", "time", "net"] }
tower-http = { version = "*", features = ["cors"] }
