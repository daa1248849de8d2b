[package]
name = "release_bump"
version = "0.1.0"
edition = "2021"
publish = false

[dependencies]
regex = "1"
toml_edit = "0.22"
pathdiff = "0.2"
clap = { version = "4", features = ["derive"] }
console = "0.15"
git2 = "*"
git2_credentials = "*"
