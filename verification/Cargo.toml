[package]
name = "trv1"
version = "0.1.0"
edition = "2021"
publish = false

[dependencies]
sha2 = "0.10"
ed25519-dalek = { version = "2", features = ["rand_core"] }
hex = "0.4"
lru = "0.12"
serde_json = "1"
serde = { version = "1", features = ["derive"] }
bincode = "1"
chrono = { version = "0.4", features = ["serde"] }
thiserror = "1"
parking_lot = "0.12"
rand = "0.8"
tracing = "0.1"
tracing-subscriber = "0.3"
clap = { version = "4", features = ["derive"] }
tokio = { version = "1", features = ["rt-multi-thread", "macros", "sync", "time", "signal"] }
libp2p = { version = "0.53", features = ["tokio", "gossipsub", "noise", "yamux", "tcp", "macros"] }
jsonrpsee = { version = "0.22", features = ["server", "macros"] }
