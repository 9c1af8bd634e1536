[package]
name = "jobstr_poller"
version = "0.1.0"
edition = "2021"
publish = false

[dependencies]
dotenv = "0.15"
nostr = "0.44"
nostr-sdk = "0.44"
serde = { version = "1", features = ["derive"] }
serde_json = "1"
tokio = { version = "1", features = ["macros", "rt-multi-thread", "time"] }
