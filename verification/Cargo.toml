[package]
name = "stake_contract"
version = "0.1.0"
edition = "2021"
publish = false

[dependencies]
dusk-bls12_381 = "=0.13.0"
dusk-bls12_381-sign = "=0.6.0"
dusk-bytes = "=0.1.7"
derive-hex = "=0.1.2"
phoenix-core = "=0.35.1"

[dev-dependencies]
rand = "0.8"
