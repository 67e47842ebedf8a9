[package]
name = "cargo-changelog"
version = "0.1.0"
edition = "2021"
publish = false

[dependencies]
cargo_metadata = "0.18"
clap = { version = "4", features = ["derive"] }
clap_complete = "4"
comma = "1"
dialoguer = "0.11"
git2 = { version = "0.19", default-features = false }
handlebars = "5"
indexmap = { version = "2", features = ["serde"] }
is-terminal = "0.4"
itertools = "0.13"
log = "0.4"
miette = { version = "7", features = ["fancy"] }
semver = "1"
serde = { version = "1", features = ["derive"] }
serde_json = "1"
serde_yaml = "0.9"
thiserror = "1"
time = { version = "0.3", features = ["formatting", "macros"] }
toml = "0.8"
tracing-subscriber = { version = "0.3", features = ["env-filter"] }
walkdir = "2"
yansi = "0.5"
