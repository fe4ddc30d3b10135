[package]
name = "pregonero"
version = "0.1.0"
edition = "2021"
publish = false

[dependencies]
quoted_printable = "*"
encoding = "0.2"
mailparse = "*"
html2text = "0.12"
tokio = { version = "1", features = ["full"] }
async-imap = { version = "*", default-features = false, features = ["runtime-tokio"] }
async-native-tls = { version = "*", default-features = false, features = ["runtime-tokio"] }
futures = "0.3"
redis = { version = "*", features = ["tokio-comp"] }
serde = { version = "1", features = ["derive"] }
serde_derive = "1"
serde_json = "1"
anyhow = "1"
async-trait = "0.1"
tracing = "0.1"
tracing-subscriber = { version = "0.3", features = ["env-filter"] }
