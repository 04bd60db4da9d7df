[package]
name = "pdf_reader"
version = "0.1.0"
edition = "2021"
publish = false

[dependencies]
chrono = "0.4"
dirs = "*"
log = "0.4"
lopdf = "*"
notify = "*"
serde = { version = "1", features = ["derive"] }
serde_json = "1"
sha2 = "0.10"
trash = "*"
urlencoding = "2"
