[package]
name = "doneyet"
version = "0.1.0"
edition = "2021"
publish = false

[dependencies]
anyhow = "*"
async-trait = "*"
axum = { version = "*", default-features = false, features = ["http1", "tokio"] }
clap = { version = "*", features = ["derive", "env"] }
clap_complete = "*"
crossterm = "*"
hex = "*"
hmac = "*"
jiff = { version = "*", features = ["serde"] }
reqwest = { version = "*", default-features = false, features = ["json"] }
serde = { version = "*", features = ["derive"] }
serde_json = "*"
sha2 = "*"
thiserror = "*"
tokio = { version = "*", features = ["full"] }
tokio-util = "*"
toml = "*"
tracing = "*"
