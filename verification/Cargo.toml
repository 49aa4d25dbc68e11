[package]
name = "cellar"
version = "0.1.0"
edition = "2021"
publish = false

[dependencies]
anyhow = "*"
chrono = "*"
clap = { version = "*", features = ["derive"] }
dirs = "*"
flate2 = "*"
reqwest = { version = "*", default-features = false, features = ["json", "rustls-tls"] }
serde = { version = "*", features = ["derive"] }
tar = "*"
tokio = { version = "*", features = ["rt-multi-thread", "macros", "process", "fs"] }
toml = "*"
zip = "*"

[dev-dependencies]
tempfile = "*"
