[package]
name = "regmap"
version = "0.1.0"
edition = "2021"
publish = false

[dependencies]
regex = "1"
calamine = { version = "*", features = ["dates"] }
clap = { version = "4", features = ["derive"] }
serde = { version = "1", features = ["derive"] }
serde_json = "1"
quick-xml = { version = "*", features = ["serialize"] }
thiserror = "*"
tracing = "0.1"
