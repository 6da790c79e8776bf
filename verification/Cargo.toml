[package]
name = "fedimint_server"
version = "0.1.0"
edition = "2021"
publish = false

[dependencies]
anyhow = "=1.0.104"
async-channel = "=2.5.0"
async-trait = "=0.1.92"
bitcoin = "0.32"
esplora-client = { version = "*", default-features = false, features = ["async"] }
futures = "=0.3.34"
serde = { version = "1", features = ["derive"] }
thiserror = "2"
tokio = { version = "=1.54.1", features = ["macros", "rt", "rt-multi-thread", "signal", "sync", "time"] }
tracing = "0.1"
