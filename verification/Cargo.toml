[package]
name = "hannahanna"
version = "0.6.0"
edition = "2021"
publish = false

[dependencies]
sha2 = "0.10"
version-compare = "0.2"
clap = { version = "4", features = ["derive"] }
colored = "2"
dirs = "5"
serde = { version = "1", features = ["derive"] }
serde_json = "1"
serde_yml = "*"
tempfile = "3"
thiserror = "1"
chrono = "0.4"
regex = "1"
fs2 = "0.4"
git2 = { version = "0.19", default-features = false }
flate2 = "1"
tar = "0.4"
