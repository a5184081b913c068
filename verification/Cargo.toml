[package]
name = "satslinker"
version = "0.1.0"
edition = "2021"
publish = false

[dependencies]
sha2 = "*"
candid = "*"
serde = { version = "*", features = ["derive"] }
ic-cdk = "*"
ic-cdk-timers = "*"
ic-stable-structures = "*"
icrc-ledger-types = "*"
ic-ledger-types = "*"
ic-e8s = "*"
