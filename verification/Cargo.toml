[package]
name = "frencli"
version = "0.1.0"
edition = "2021"
publish = false

[dependencies]
freneng = "*"
glob = "*"
serde = { version = "1", features = ["derive"] }
serde_json = "1"
tokio = { version = "1", features = ["rt-multi-thread", "macros", "fs", "io-util", "io-std"] }
