[package]
name = "grandpa_prover"
version = "0.1.0"
edition = "2021"
publish = false

[dependencies]
parity-scale-codec = "=3.7.5"
sp-runtime = "=49.0.0"
sp-core = "=43.0.0"
primitive-types = "=0.13.1"
anyhow = "=1.0.104"
serde = { version = "=1.0.229", features = ["derive"] }
tendermint-proto = "=0.40.4"
prost = "=0.13.5"
