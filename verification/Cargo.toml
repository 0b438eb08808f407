[package]
name = "http_pipe"
version = "0.1.0"
edition = "2021"
publish = false

[dependencies]
actix-rt = "*"
actix-web = { version = "*", default-features = false }
anyhow = "*"
atty = "*"
bytes = "*"
clap = { version = "*", features = ["derive"] }
futures = "*"
log = "*"
reqwest = { version = "*", default-features = false }
simplelog = "*"
thiserror = "*"
tokio = { version = "*", features = ["rt-multi-thread", "io-std", "io-util", "sync", "time", "macros"] }
