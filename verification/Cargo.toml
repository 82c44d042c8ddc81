[package]
name = "belt_core"
version = "0.1.0"
edition = "2021"
publish = false

[dependencies]
uuid = { version = "1", features = ["v7"] }
serde = { version = "1", features = ["derive"] }
serde_json = "1"
serde-saphyr = "*"
toml = "*"
clap = { version = "4", features = ["derive"] }
miette = "7"
thiserror = "2"
chrono = { version = "0.4", features = ["serde"] }
glob = "0.3"
