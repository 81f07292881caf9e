[package]
name = "anoma_config"
version = "0.1.0"
edition = "2021"
publish = false

[dependencies]
assert_cmd = "=1.0.8"
color-eyre = "=0.5.11"
expectrl = "=0.5.2"
eyre = "=0.6.14"
fs_extra = "=1.3.0"
libp2p = { version = "=0.57.1", default-features = false }
rand = "=0.8.8"
regex = "=1.13.1"
tempfile = "=3.27.0"
tendermint = "=0.40.4"
tendermint-config = "=0.40.4"
thiserror = "=1.0.69"
toml = { version = "=0.5.11", features = ["preserve_order"] }
tracing = "=0.1.44"
