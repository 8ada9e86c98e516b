[package]
name = "dumpx"
version = "0.1.0"
edition = "2021"
publish = false

[dependencies]
anyhow = "*"
clap = { version = "*", features = ["derive"] }
fake = { version = "*", features = ["chrono", "time", "uuid", "http", "geo", "random_color"] }
image = { version = "*", default-features = false, features = ["jpeg", "png"] }
mimalloc = "*"
parquet = { version = "*", default-features = false }
serde = { version = "*", features = ["derive"] }
serde_json = "*"
