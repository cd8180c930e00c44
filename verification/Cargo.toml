[package]
name = "merge_upsert"
version = "0.1.0"
edition = "2021"
publish = false

[dependencies]
serde = { version = "1", features = ["derive"] }
tokio-postgres = "0.7"
bb8-postgres = "*"
