[package]
name = "node_logic"
version = "0.1.0"
edition = "2021"
publish = false

[dependencies]
sp-core = "=43.0.0"
sp-crypto-hashing = "=0.1.0"
parity-scale-codec = { version = "=3.7.5", features = ["derive"] }
schnellru = "=0.2.4"
scale-info = { version = "=2.11.6", features = ["derive"] }
thiserror = "=2.0.21"
futures = "=0.3.34"
tokio = { version = "=1.54.1", features = ["time", "rt"] }
ark-scale = { version = "0.0.12", features = ["hazmat"] }
ark-ec = "=0.4.2"
ark-bls12-381 = "=0.4.0"
