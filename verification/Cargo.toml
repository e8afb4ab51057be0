[package]
name = "ckb-did-plc-utils"
version = "0.1.0"
edition = "2021"
publish = false

[dependencies]
base32 = "=0.5.1"
base64 = "=0.22.1"
cbor4ii = { version = "=1.2.4", features = ["use_std"] }
k256 = "=0.13.4"
p256 = "=0.13.2"
sha2 = "=0.10.9"
multibase = "=0.9.3"
molecule = "=0.9.2"
ckb-std = "=1.1.0"
ckb-hash = { version = "=1.1.1", default-features = false, features = ["ckb-contract"] }
