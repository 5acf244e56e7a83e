[package]
name = "inscriber"
version = "0.1.0"
edition = "2021"
publish = false

[dependencies]
bitcoin = { version = "0.30", features = ["rand-std", "serde"] }
bitcoincore-rpc = "0.17"
tokio = { version = "1", features = ["rt-multi-thread", "time"] }
sqlx = { version = "0.7", default-features = false, features = ["postgres", "runtime-tokio", "uuid"] }
uuid = "1"
color-eyre = { version = "0.6", default-features = false }
dotenv = "0.15"
tracing = "0.1"
serde = { version = "1", features = ["derive"] }
anyhow = "1"
