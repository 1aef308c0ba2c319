[package]
name = "dmn_tck_runner"
version = "0.1.0"
edition = "2021"
publish = false

[dependencies]
antex = "*"
iso8601-duration = "*"
regex = "1"
reqwest = { version = "*", default-features = false, features = ["blocking", "json"] }
roxmltree = "*"
rust_decimal = "1"
serde = { version = "1", features = ["derive"] }
serde_json = "1"
url = "2"
