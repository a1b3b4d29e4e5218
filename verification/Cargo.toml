[package]
name = "mods_easy"
version = "1.0.1"
edition = "2021"
publish = false

[dependencies]
dirs = "5"
hex = "0.4"
reqwest = { version = "0.12", default-features = false, features = ["json", "rustls-tls"] }
serde = { version = "1", features = ["derive"] }
serde_json = "1"
serde_yaml = "0.9"
sha1 = "0.10"
sysinfo = "0.33"
tokio = { version = "1", features = ["fs", "rt", "macros"] }
zip = { version = "2", default-features = false, features = ["deflate"] }
