[package]
name = "published_packages"
version = "0.1.0"
edition = "2021"
publish = false

[dependencies]
anyhow = "=1.0.104"
cargo_metadata = "=0.23.1"
cargo_utils = "=0.1.87"
fs-err = "=3.3.2"
git_cmd = "=0.8.0"
itertools = "=0.15.0"
tempfile = "=3.27.0"

[dev-dependencies]
regex = "=1.13.1"
