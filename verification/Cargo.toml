[package]
name = "snapshot"
version = "0.1.0"
edition = "2021"
publish = false

[dependencies]
rlp = "=0.1.1"
ethcore-bigint = "=0.1.3"
snap = "=1.1.2"
tiny-keccak = { version = "=2.0.2", features = ["keccak"] }
triehash = "=0.8.4"
keccak-hasher = "=0.15.3"
rand = "=0.8.8"
crossbeam = "=0.8.5"
num_cpus = "=1.17.0"
docopt = "=1.1.1"
toml = "=0.5.11"
