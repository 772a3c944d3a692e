[package]
name = "wallet_unit_poc"
version = "0.1.0"
edition = "2021"
publish = false

[dependencies]
hex = "0.4"
num-bigint = "0.4"
serde = { version = "1", features = ["derive"] }
serde_json = "1"
anyhow = "1"
memmap2 = "0.9"
ff = "0.13"
bincode = "1"
tracing = "0.1"
tracing-subscriber = { version = "0.3", features = ["env-filter"] }
clap = { version = "4", features = ["derive"] }
bellpepper-core = "*"
circom-scotia = "*"
mimalloc = "0.1"
