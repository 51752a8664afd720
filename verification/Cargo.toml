[package]
name = "coding-env"
version = "0.1.2"
edition = "2021"
publish = false

[dependencies]
anyhow = "1"
chrono = { version = "0.4", features = ["serde"] }
clap = { version = "4", features = ["derive"] }
dirs = "5"
quick-xml = { version = "0.31", features = ["serialize"] }
serde = { version = "1", features = ["derive"] }
serde_json = "1"
tabled = "0.15"
tabled_derive = "0.7"
uuid = { version = "1", features = ["v4"] }
