[package]
name = "colmeia_dat1"
version = "0.1.0"
edition = "2021"
publish = false

[dependencies]
anyhow = "=1.0.104"
async-std = "=1.13.2"
bitfield-rle = "=0.2.1"
# Named by no file: holds hypercore to the release that it was written for.
ed25519-dalek = "=1.0.0-pre.3"
env_logger = "=0.11.11"
failure = "=0.1.8"
hex = "=0.4.3"
hypercore = "=0.11.1-beta.3"
hypercore-protocol = "=0.7.2"
lazy_static = "=1.5.1"
log = "=0.4.34"
# Named by no file: holds hypercore's in-memory storage to the release that
# agrees with random-access-storage below.
random-access-memory = "=1.1.0"
random-access-storage = "=3.0.0"
socket2 = { version = "=0.6.5", features = ["all"] }
trust-dns-proto = "=0.23.2"
