[package]
name = "erc721_substream"
version = "0.1.0"
edition = "2021"
publish = false

[dependencies]
anyhow = "1"
ethabi = "17"
evm-core = "0.41"
primitive-types = "0.12"
prost = "0.11"
substreams = "0.5"
substreams-entity-change = "1.3"
substreams-ethereum = "0.9"
