[package]
name = "mining_bridge"
version = "0.1.0"
edition = "2021"
publish = false

[dependencies]
hex = "=0.4.3"
byteorder = "=1.5.0"
bitcoin_hashes = "=0.3.2"
quickcheck = "=1.1.0"
binary_sv2 = "=0.1.7"
codec_sv2 = { version = "=3.0.1", features = ["noise_sv2"] }
framing_sv2 = "=0.1.6"
roles_logic_sv2 = "=0.1.2"
async-channel = "=1.9.0"
serde_json = "=1.0.154"
toml = "=0.5.11"
tracing = "=0.1.44"
