[package]
name = "n2k"
version = "0.1.0"
edition = "2021"
publish = false

[dependencies]
heapless = "*"
heck = "*"
serde = { version = "*", features = ["derive"] }
serde-xml-rs = "*"
serde_json = "*"
structopt = "*"
env_logger = "*"
log = "*"
canutils = "*"

[dev-dependencies]
bitvec = "*"
