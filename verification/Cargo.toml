[package]
name = "lm_provision"
version = "0.1.0"
edition = "2021"
publish = false

[dependencies]
dsl-kit = "*"
nix = { version = "0.29", default-features = false, features = ["mount", "fs"] }
reqwest = { version = "0.12", default-features = false, features = ["stream"] }
serde = { version = "1", features = ["derive"] }
serde_json = "1"
thiserror = "2"
tokio = { version = "1", features = ["full"] }
tracing = "0.1"
