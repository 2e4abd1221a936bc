[package]
name = "crate-api"
version = "0.1.0"
edition = "2021"
publish = false

[dependencies]
semver = { version = "=1.0.28", features = ["serde"] }
rustdoc-types = "0.10"
serde = { version = "=1.0.229", features = ["derive"] }
serde_json = "=1.0.154"
cargo_metadata = "0.14"
toml_edit = "0.13"
clap = { version = "3.1", features = ["derive"] }
clap-cargo = { version = "0.8", features = ["cargo_metadata"] }
clap-verbosity-flag = "1.0"
eyre = "0.6"
git2 = { version = "0.14", default-features = false }
proc-exit = "1.0"
human-panic = "1.0"
log = "0.4"
