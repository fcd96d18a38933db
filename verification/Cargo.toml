[package]
name = "midnight_block_reader"
version = "0.1.0"
edition = "2021"
publish = false

[dependencies]
anyhow = "=1.0.104"
hex = "=0.4.3"
midnight-base-crypto = "=1.0.2"
midnight-ledger = "=8.1.3"
midnight-serialize = "=1.1.1"
midnight-storage = "=2.0.3"
midnight-transient-crypto = "=2.1.1"
reqwest = { version = "=0.12.28", features = ["json"] }
serde_json = "=1.0.154"
tokio = { version = "=1.54.1", features = ["macros", "rt-multi-thread"] }

[dev-dependencies]
midnight-coin-structure = "=2.0.2"
