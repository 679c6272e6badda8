[package]
name = "kiwi"
version = "0.1.0"
edition = "2021"
publish = false

[dependencies]
handlebars = "*"
serde_json = "*"
serde = { version = "*", features = ["derive"] }
toml = "*"
walkdir = "*"
chrono = "*"
chrono-humanize = "*"
clap = { version = "*", features = ["derive"] }
clap_complete = "*"
dialoguer = "*"
git2 = "*"
notify = "*"
colorful = "*"
which = "*"
trash = "*"
anyhow = "*"
