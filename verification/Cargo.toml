[package]
name = "netdiff"
version = "0.1.0"
edition = "2021"
publish = false

[dependencies]
anyhow = "1"
async-trait = "0.1"
atty = "0.2"
clap = { version = "4", features = ["derive"] }
console = "0.15"
dialoguer = "0.11"
http = "1"
http-serde = "2"
mime = "0.3"
reqwest = { version = "0.12", default-features = false }
serde = { version = "1", features = ["derive"] }
serde_json = "1"
serde_qs = "0.13"
serde_yaml = "0.9"
similar = { version = "2", features = ["inline"] }
syntect = { version = "5", default-features = false, features = ["default-fancy"] }
tokio = { version = "1", features = ["fs", "macros", "rt-multi-thread"] }
url = "2"
