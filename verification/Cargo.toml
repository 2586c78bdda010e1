[package]
name = "lint_report"
version = "0.1.0"
edition = "2021"
publish = false

[dependencies]
cli-table = { version = "*", default-features = false }
colored = "*"
serde = { version = "*", features = ["derive"] }
serde_json = "*"
