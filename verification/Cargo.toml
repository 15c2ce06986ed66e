[package]
name = "zkguest"
version = "0.1.0"
edition = "2021"
publish = false

[dependencies]
sha2 = "=0.10.9"
tiny-keccak = { version = "=2.0.2", features = ["sha3", "keccak"] }
starknet-crypto = "=0.8.1"
secp256k1 = { version = "=0.33.1", features = ["recovery"] }
crypto-bigint = "=0.5.5"
hex = "=0.4.3"
postcard = { version = "=1.1.3", features = ["alloc"] }
rand = "=0.8.8"
object = "=0.40.0"
rustc-demangle = "=0.1.28"
tracing = "=0.1.44"
tracing-subscriber = "=0.3.23"
