[package]
name = "erebus"
version = "0.5.0"
edition = "2021"
publish = false

[dependencies]
sha2 = "=0.10.9"
ed25519-dalek = { version = "=2.2.0", features = ["rand_core"] }
hex = "=0.4.3"
serde = { version = "=1.0.229", features = ["derive"] }
serde_json = "=1.0.154"
toml = "=0.8.23"
libc = "=0.2.191"
clap = { version = "=4.6.7", features = ["derive"] }
anyhow = "=1.0.104"
rand = "=0.8.8"
zeroize = "=1.9.1"
dirs = "=5.0.1"
which = "=6.0.3"
clap_complete = "4"
clap_mangen = "0.2"
human-panic = "2"

[dev-dependencies]
tempfile = "=3.27.0"
