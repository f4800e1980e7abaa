[package]
name = "content_resolver"
version = "0.1.0"
edition = "2021"
publish = false

[dependencies]
sha2 = "*"
reqwest = { version = "*", default-features = false }
serde = { version = "*", features = ["derive"] }
serde_json = "*"
tokio = { version = "*", features = ["fs", "rt"] }
async-trait = "*"

[dev-dependencies]
tempfile = "*"
