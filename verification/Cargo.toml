[package]
name = "quartz"
version = "0.1.0"
edition = "2021"
publish = false

[dependencies]
anyhow = "=1.0.104"
ciborium = "*"
clap = { version = "=4.6.7", features = ["derive"] }
cosmrs = "=0.22.0"
ecies = { version = "=0.2.11", default-features = false, features = ["pure"] }
hex = "=0.4.3"
ics23 = "=0.11.3"
k256 = "=0.13.4"
rand = "=0.8.8"
regex = "=1.13.1"
serde = { version = "=1.0.229", features = ["derive"] }
serde_json = "=1.0.154"
sha2 = "=0.10.9"
subtle-encoding = { version = "=0.5.1", features = ["bech32-preview"] }
tendermint = "=0.40.4"
tendermint-light-client-verifier = "=0.40.4"
tokio = { version = "=1.54.1", features = ["rt", "macros", "sync", "time", "fs", "io-util", "process"] }
toml = "=0.8.23"
tracing = "=0.1.44"
xxhash-rust = { version = "=0.8.19", features = ["xxh3"] }

[dev-dependencies]
ed25519-consensus = "=2.1.0"
