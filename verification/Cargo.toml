[package]
name = "mdqc"
version = "0.1.0"
edition = "2021"
publish = false

[dependencies]
anyhow = "*"
chrono = "*"
clap = { version = "*", features = ["derive"] }
csv = "*"
directories = "*"
dirs = "*"
filetime = "*"
glob = "*"
hex = "*"
hostname = "*"
notify = "*"
rand = "*"
reqwest = { version = "*", default-features = false, features = ["json", "rustls-tls"] }
serde = { version = "*", features = ["derive"] }
serde_json = "*"
sha2 = "*"
tokio = { version = "*", features = ["rt-multi-thread", "macros", "time", "sync", "signal", "process"] }
toml = "*"
uuid = { version = "*", features = ["v4"] }
which = "*"
