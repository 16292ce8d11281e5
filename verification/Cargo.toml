[package]
name = "cargo_ship"
version = "0.1.0"
edition = "2021"
publish = false

[dependencies]
annotate-snippets = "*"
anstream = "*"
anyhow = "*"
cargo_metadata = "*"
clap = { version = "*", features = ["derive"] }
clap-cargo = { version = "*", features = ["cargo_metadata"] }
env_logger = "*"
log = "*"
semver = "*"
supports-unicode = "*"
tame-index = { version = "*", features = ["sparse"] }
