[package]
name = "sui_validator"
version = "0.1.0"
edition = "2021"
publish = false

[dependencies]
anyhow = "1"
async-trait = "*"
aws-config = "*"
axum = "*"
parking_lot = "*"
rand = "0.8"
reqwest = { version = "*", default-features = false, features = ["json"] }
serde = { version = "1", features = ["derive"] }
serde_json = "1"
tokio = { version = "1", features = ["rt-multi-thread", "macros", "net", "sync"] }
uuid = { version = "1", features = ["v4"] }
