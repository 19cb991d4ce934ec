[package]
name = "opendal_table"
version = "0.1.0"
edition = "2021"
publish = false

[dependencies]
arrow = "56"
async-trait = "0.1"
datafusion = { version = "50", default-features = false }
deadpool = "0.12"
futures = "0.3"
opendal = { version = "0.54", default-features = false }
tokio = { version = "1", features = ["sync"] }
