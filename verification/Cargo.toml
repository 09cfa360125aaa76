[package]
name = "jepsen_rs"
version = "0.1.0"
edition = "2021"
publish = false

[dependencies]
anyhow = "*"
async-trait = "*"
j4rs = "*"
log = "*"
madsim = "*"
serde = { version = "*", features = ["derive"] }
serde_json = "*"
serde_with = "*"
tokio-stream = "*"
