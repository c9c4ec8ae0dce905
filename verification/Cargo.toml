[package]
name = "qpm_core"
version = "0.1.0"
edition = "2021"
publish = false

[dependencies]
semver = "1"
dirs = "*"
serde = { version = "1", features = ["derive"] }
serde_json = "1"
remove_dir_all = "*"
