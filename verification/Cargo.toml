[package]
name = "chicken_coop"
version = "0.1.0"
edition = "2021"
publish = false

[dependencies]
packageurl = "0.3"
url = "2"
roxmltree = "0.18"
cyclonedx-bom = "0.4"
reqwest = { version = "0.11", default-features = false, features = ["json"] }
serde = { version = "1", features = ["derive"] }
serde_json = "1"
thiserror = "1"
