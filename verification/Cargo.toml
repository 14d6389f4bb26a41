[package]
name = "autogit"
version = "0.1.0"
edition = "2021"
publish = false

[dependencies]
anyhow = "*"
chrono = "*"
colored = "*"
dirs = "*"
git2 = { version = "*", default-features = false }
image = { version = "*", default-features = false, features = ["png"] }
ksni = "*"
notify = "*"
notify-rust = "*"
serde = { version = "*", features = ["derive"] }
serde_json = "*"
tabled = "*"
tokio = { version = "*", features = ["full"] }
toml = "*"
tracing = "*"
tracing-subscriber = { version = "*", features = ["env-filter"] }
