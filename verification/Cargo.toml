[package]
name = "class_copilot"
version = "0.1.0"
edition = "2021"
publish = false

[dependencies]
sha2 = "0.10"
hex = "0.4"
serde = { version = "1", features = ["derive"] }
serde_json = "1"
chrono = "0.4"
sqlx = { version = "0.8", default-features = false, features = ["runtime-tokio", "sqlite", "derive"] }
tokio = { version = "1", features = ["sync"] }
rust_xlsxwriter = "*"
calamine = "*"
zip = { version = "*", default-features = false, features = ["deflate"] }
