[package]
name = "sugar_upload"
version = "0.1.0"
edition = "2021"
publish = false

[dependencies]
anyhow = "1"
async-trait = "0.1"
bs58 = "=0.4.0"
bundlr-sdk = "=0.2.0"
clap = { version = "3", features = ["derive", "cargo"] }
console = "0.15"
futures = "0.3"
reqwest = { version = "0.11", features = ["json"] }
serde_json = "1"
tokio = { version = "1", features = ["rt-multi-thread", "macros", "time"] }
