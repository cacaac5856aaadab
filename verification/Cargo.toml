[package]
name = "miho"
version = "0.1.0"
edition = "2021"
publish = false

[dependencies]
semver = "1"
globset = "0.4"
toml = "*"
serde = { version = "1", features = ["derive"] }
serde_json = "1"
anyhow = "1"
clap = { version = "4", features = ["derive"] }
tokio = { version = "1", features = ["full"] }
colored = "*"
inquire = "*"
tabled = "*"
itertools = "*"
strum = { version = "*", features = ["derive"] }
ignore = "0.4"
reqwest = { version = "*", default-features = false, features = ["json"] }
crossterm = "*"
thiserror = "*"
