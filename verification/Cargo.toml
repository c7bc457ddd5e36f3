[package]
name = "sheetloader"
version = "0.1.0"
edition = "2021"
publish = false

[dependencies]
rusqlite = { version = "*", features = ["bundled"] }
calamine = "*"
serde = { version = "*", features = ["derive"] }
serde_json = "*"
