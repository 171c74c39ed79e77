[package]
name = "puppetfile_audit"
version = "0.1.0"
edition = "2021"
publish = false

[dependencies]
semver = "1"
serde = { version = "1", features = ["derive"] }
serde_json = "1"
chrono = { version = "0.4", features = ["serde"] }
clap = { version = "4", features = ["derive"] }
comfy-table = "7"
git2 = { version = "*", default-features = false }
attohttpc = { version = "*", features = ["json"] }
shellexpand = "3"
tracing = "0.1"
tracing-subscriber = "0.3"

[dev-dependencies]
regex = "1"
