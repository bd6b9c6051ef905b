[package]
name = "cachekill"
version = "0.1.2"
edition = "2021"
publish = false

[dependencies]
anyhow = "*"
chrono = "*"
clap = { version = "*", features = ["derive"] }
dirs = "*"
fs_extra = "*"
globset = "*"
humansize = "*"
inquire = "*"
serde = { version = "*", features = ["derive"] }
serde_json = "*"
toml = "*"
walkdir = "*"
which = "*"

[dev-dependencies]
tempfile = "*"
