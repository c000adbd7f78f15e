[package]
name = "rcal"
version = "0.1.0"
edition = "2021"

[dependencies]
anyhow = "1"
clap = { version = "4", features = ["derive"] }
evalexpr = "*"
git-version = "0.3"
regex = "1"
rustyline = "*"
thiserror = "1"
