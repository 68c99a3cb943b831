[package]
name = "hf2_flash"
version = "0.1.0"
edition = "2021"
publish = false

[dependencies]
goblin = "*"
crc-any = "*"
hf2 = "*"
hidapi = "*"
cargo-project = "*"
colored = "*"
log = "*"
maplit = "*"
pretty_env_logger = "*"
structopt = "*"
