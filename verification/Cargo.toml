[package]
name = "solar"
version = "0.1.0"
edition = "2021"
publish = false

[dependencies]
kuska-ssb = "=0.4.0"
serde = { version = "=1.0.229", features = ["derive"] }
serde_json = "=1.0.154"
sled = "=0.34.7"
async-std = { version = "=1.13.2", features = ["unstable"] }
async-trait = "=0.1.92"
async-ctrlc = "=1.2.0"
futures = "=0.3.34"
log = "=0.4.34"
once_cell = "=1.21.4"
base64 = "=0.13.1"
hex = "=0.4.3"

[dev-dependencies]
serde_cbor = "=0.11.2"
tempdir = "=0.3.7"
