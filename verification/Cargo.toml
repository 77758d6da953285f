[package]
name = "lspmux"
version = "0.1.0"
edition = "2021"
publish = false

[dependencies]
anyhow = "*"
directories = "*"
serde = "*"
serde_derive = "*"
serde_json = "*"
time = "*"
tokio = { version = "*", features = ["full"] }
toml = "*"
tracing = "*"
tracing-subscriber = { version = "*", features = ["env-filter"] }
