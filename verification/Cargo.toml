[package]
name = "guard_session"
version = "0.1.0"
edition = "2021"
publish = false

[dependencies]
sp-runtime = "*"
sp-io = "*"
sp-core = "*"
sp-staking = "*"
sp-std = "*"
sp-application-crypto = "*"
parity-scale-codec = { version = "3", features = ["derive"] }
scale-info = { version = "2", features = ["derive"] }
frame-support = "*"
frame-system = "*"
impl-trait-for-tuples = "*"
log = "0.4"
serde = { version = "1", features = ["derive"] }

[dev-dependencies]
pallet-staking-reward-curve = "*"
