[package]
name = "sequencer"
version = "0.1.0"
edition = "2021"
publish = false

[dependencies]
anyhow = "=1.0.104"
ark-serialize = { version = "=0.4.2", features = ["derive"] }
async-std = "=1.13.2"
async-trait = "=0.1.92"
bincode = "=1.3.3"
committable = { version = "=0.2.4", features = ["ark-serialize", "serde"] }
derive_more = "=0.99.20"
ethers = { version = "=2.0.14", default-features = false }
lazy_static = "=1.5.1"
serde = { version = "=1.0.229", features = ["derive"] }
time = "=0.3.55"
tracing = "=0.1.44"
trait-variant = "=0.1.3"
typenum = "=1.20.1"

[dev-dependencies]
serde_json = "=1.0.154"
