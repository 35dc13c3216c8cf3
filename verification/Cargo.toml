[package]
name = "substrate_wire"
version = "0.1.0"
edition = "2021"
publish = false

[dependencies]
anyhow = "=1.0.104"
hex = "=0.4.3"
jsonrpsee = { version = "=0.26.1", default-features = false, features = ["async-client", "client-ws-transport-no-tls"] }
reqwest = { version = "=0.13.5", default-features = false, features = ["json"] }
serde = "=1.0.229"
serde_json = "=1.0.154"
sp-core = "=34.0.0"
sp-keyring = "=39.0.0"
sp-runtime = "=39.0.5"
sp-version = "=37.0.0"
tokio = { version = "=1.54.1", features = ["macros", "rt-multi-thread"] }

[dev-dependencies]
frame-metadata = "=23.0.1"
parity-scale-codec = "=3.7.5"
scale-info = "=2.11.6"
sp-crypto-hashing = "=0.1.0"
