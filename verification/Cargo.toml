[package]
name = "cargo_canister"
version = "0.1.0"
edition = "2021"
publish = false

[dependencies]
anyhow = "*"
candid_parser = "*"
clap = { version = "*", features = ["derive"] }
console = "*"
env_logger = "*"
ic-agent = "*"
indicatif = "*"
log = "*"
prettydiff = "*"
tokio = { version = "*", features = ["macros", "rt-multi-thread"] }
toml = "*"
